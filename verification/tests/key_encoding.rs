use nebula_term::KeyInput;
use nebula_term::encode_key;

#[test]
fn printable_text_passes_through_as_utf8() {
    assert_eq!(encode_key(&KeyInput::Text(String::from("ls"))), b"ls".to_vec());
    assert_eq!(
        encode_key(&KeyInput::Text(String::from("caf\u{e9}"))),
        "caf\u{e9}".as_bytes().to_vec()
    );
}

#[test]
fn named_keys_map_to_fixed_byte_sequences() {
    assert_eq!(encode_key(&KeyInput::Backspace), vec![0x08]);
    assert_eq!(encode_key(&KeyInput::Enter), vec![0x0d, 0x0a]);
    assert_eq!(encode_key(&KeyInput::Tab), vec![0x09]);
    assert_eq!(encode_key(&KeyInput::Escape), vec![0x1b]);
}

#[test]
fn arrow_keys_send_csi_sequences() {
    assert_eq!(encode_key(&KeyInput::ArrowUp), b"\x1b[A".to_vec());
    assert_eq!(encode_key(&KeyInput::ArrowDown), b"\x1b[B".to_vec());
    assert_eq!(encode_key(&KeyInput::ArrowRight), b"\x1b[C".to_vec());
    assert_eq!(encode_key(&KeyInput::ArrowLeft), b"\x1b[D".to_vec());
}
