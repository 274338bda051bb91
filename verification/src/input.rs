//! The input-translation table: a key press, resolved once at the input
//! boundary into a closed variant, becomes the byte sequence written to the
//! shell's stdin. Printable text passes through as its UTF-8 bytes; named
//! keys map to fixed sequences.

use vstd::prelude::*;
use vstd::utf8::encode_utf8;

verus! {

/// A key press after translation: printable text, or one of the named keys
/// the terminal answers for.
pub enum KeyInput {
    /// Printable text; its UTF-8 bytes pass through unchanged.
    Text(String),
    Backspace,
    Enter,
    Tab,
    Escape,
    ArrowUp,
    ArrowDown,
    ArrowRight,
    ArrowLeft,
}

/// The model of a `KeyInput`.
pub ghost enum KeyInputView {
    Text(Seq<char>),
    Backspace,
    Enter,
    Tab,
    Escape,
    ArrowUp,
    ArrowDown,
    ArrowRight,
    ArrowLeft,
}

impl View for KeyInput {
    type V = KeyInputView;

    open spec fn view(&self) -> KeyInputView {
        match self {
            KeyInput::Text(s) => KeyInputView::Text(s@),
            KeyInput::Backspace => KeyInputView::Backspace,
            KeyInput::Enter => KeyInputView::Enter,
            KeyInput::Tab => KeyInputView::Tab,
            KeyInput::Escape => KeyInputView::Escape,
            KeyInput::ArrowUp => KeyInputView::ArrowUp,
            KeyInput::ArrowDown => KeyInputView::ArrowDown,
            KeyInput::ArrowRight => KeyInputView::ArrowRight,
            KeyInput::ArrowLeft => KeyInputView::ArrowLeft,
        }
    }
}

/// The bytes a key press sends to the shell.
pub open spec fn key_bytes(k: KeyInputView) -> Seq<u8> {
    match k {
        KeyInputView::Text(s) => encode_utf8(s),
        KeyInputView::Backspace => seq![0x08u8],
        KeyInputView::Enter => seq![0x0du8, 0x0au8],
        KeyInputView::Tab => seq![0x09u8],
        KeyInputView::Escape => seq![0x1bu8],
        KeyInputView::ArrowUp => seq![0x1bu8, 0x5bu8, 0x41u8],
        KeyInputView::ArrowDown => seq![0x1bu8, 0x5bu8, 0x42u8],
        KeyInputView::ArrowRight => seq![0x1bu8, 0x5bu8, 0x43u8],
        KeyInputView::ArrowLeft => seq![0x1bu8, 0x5bu8, 0x44u8],
    }
}

/// Encodes one key press for the shell's stdin.
pub fn encode_key(k: &KeyInput) -> (r: Vec<u8>)
    ensures
        r@ == key_bytes(k@),
{
    match k {
        KeyInput::Text(s) => {
            let r = s.as_str().as_bytes_vec();
            r
        },
        KeyInput::Backspace => {
            let mut r: Vec<u8> = Vec::new();
            r.push(0x08);
            assert(r@ =~= key_bytes(k@));
            r
        },
        KeyInput::Enter => {
            let mut r: Vec<u8> = Vec::new();
            r.push(0x0d);
            r.push(0x0a);
            assert(r@ =~= key_bytes(k@));
            r
        },
        KeyInput::Tab => {
            let mut r: Vec<u8> = Vec::new();
            r.push(0x09);
            assert(r@ =~= key_bytes(k@));
            r
        },
        KeyInput::Escape => {
            let mut r: Vec<u8> = Vec::new();
            r.push(0x1b);
            assert(r@ =~= key_bytes(k@));
            r
        },
        KeyInput::ArrowUp => {
            let mut r: Vec<u8> = Vec::new();
            r.push(0x1b);
            r.push(0x5b);
            r.push(0x41);
            assert(r@ =~= key_bytes(k@));
            r
        },
        KeyInput::ArrowDown => {
            let mut r: Vec<u8> = Vec::new();
            r.push(0x1b);
            r.push(0x5b);
            r.push(0x42);
            assert(r@ =~= key_bytes(k@));
            r
        },
        KeyInput::ArrowRight => {
            let mut r: Vec<u8> = Vec::new();
            r.push(0x1b);
            r.push(0x5b);
            r.push(0x43);
            assert(r@ =~= key_bytes(k@));
            r
        },
        KeyInput::ArrowLeft => {
            let mut r: Vec<u8> = Vec::new();
            r.push(0x1b);
            r.push(0x5b);
            r.push(0x44);
            assert(r@ =~= key_bytes(k@));
            r
        },
    }
}

} // verus!
