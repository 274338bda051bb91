use nebula_term::Parser;
use nebula_term::TerminalPerformer;

fn feed(bytes: &[u8]) -> (Parser, TerminalPerformer) {
    let mut parser = Parser::new();
    let mut performer = TerminalPerformer::new(24, 80);
    parser.feed(&mut performer, bytes);
    (parser, performer)
}

fn line(text: &str, cols: usize) -> String {
    let mut s = String::from(text);
    while s.chars().count() < cols {
        s.push(' ');
    }
    s
}

fn screen(lines: &[&str], rows: usize, cols: usize) -> String {
    let mut s = String::new();
    for r in 0..rows {
        s.push_str(&line(lines.get(r).copied().unwrap_or(""), cols));
        if r < rows - 1 {
            s.push('\n');
        }
    }
    s
}

#[test]
fn hello_crlf_prints_on_the_first_line() {
    let (_, performer) = feed(b"hello\r\n");
    let text = performer.grid().to_string();
    assert!(text.starts_with("hello"));
    let second: &str = text.split('\n').nth(1).unwrap();
    assert!(second.chars().all(|c| c == ' '));
    assert_eq!(performer.grid().cursor_x(), 0);
    assert_eq!(performer.grid().cursor_y(), 1);
}

#[test]
fn clear_home_and_print_leaves_one_x() {
    let (_, performer) = feed(b"some junk\x1b[2J\x1b[HX");
    let text = performer.grid().to_string();
    assert_eq!(text, screen(&["X"], 24, 80));
    assert_eq!(performer.grid().cursor_x(), 1);
    assert_eq!(performer.grid().cursor_y(), 0);
}

#[test]
fn csi_h_moves_to_one_based_row_and_column() {
    let (_, performer) = feed(b"\x1b[5;10H");
    assert_eq!(performer.grid().cursor_y(), 4);
    assert_eq!(performer.grid().cursor_x(), 9);
}

#[test]
fn csi_h_without_parameters_homes_the_cursor() {
    let (_, performer) = feed(b"hello\x1b[H");
    assert_eq!(performer.grid().cursor_x(), 0);
    assert_eq!(performer.grid().cursor_y(), 0);
}

#[test]
fn csi_h_clamps_to_the_grid() {
    let (_, performer) = feed(b"\x1b[99;200H");
    assert_eq!(performer.grid().cursor_y(), 23);
    assert_eq!(performer.grid().cursor_x(), 79);
}

#[test]
fn csi_f_positions_like_h() {
    let (_, performer) = feed(b"\x1b[3;4f");
    assert_eq!(performer.grid().cursor_y(), 2);
    assert_eq!(performer.grid().cursor_x(), 3);
}

#[test]
fn relative_cursor_moves() {
    let (_, performer) = feed(b"\x1b[10;10H\x1b[2A\x1b[3C");
    assert_eq!(performer.grid().cursor_y(), 7);
    assert_eq!(performer.grid().cursor_x(), 12);
    let (_, performer) = feed(b"\x1b[10;10H\x1b[4B\x1b[2D");
    assert_eq!(performer.grid().cursor_y(), 13);
    assert_eq!(performer.grid().cursor_x(), 7);
}

#[test]
fn device_status_report_writes_the_cursor_position() {
    let (_, mut performer) = feed(b"\x1b[5;10H\x1b[6n");
    let responses = performer.take_responses();
    assert_eq!(responses, b"\x1b[5;10R".to_vec());
    // Drained once, the buffer is empty.
    assert_eq!(performer.take_responses(), Vec::<u8>::new());
}

#[test]
fn device_status_report_at_the_clamped_corner() {
    let (_, mut performer) = feed(b"\x1b[999;999H\x1b[6n");
    assert_eq!(performer.take_responses(), b"\x1b[24;80R".to_vec());
}

#[test]
fn two_status_reports_accumulate_in_order() {
    let (_, mut performer) = feed(b"\x1b[6nA\x1b[6n");
    assert_eq!(performer.take_responses(), b"\x1b[1;1R\x1b[1;2R".to_vec());
}

#[test]
fn an_empty_first_parameter_reads_as_zero() {
    let (_, performer) = feed(b"\x1b[;5H");
    assert_eq!(performer.grid().cursor_y(), 0);
    assert_eq!(performer.grid().cursor_x(), 4);
}

#[test]
fn an_escape_sequence_survives_a_batch_boundary() {
    let mut parser = Parser::new();
    let mut performer = TerminalPerformer::new(24, 80);
    parser.feed(&mut performer, b"junk\x1b[");
    parser.feed(&mut performer, b"2J\x1b[HX");
    assert_eq!(performer.grid().to_string(), screen(&["X"], 24, 80));
}

#[test]
fn tab_expands_to_four_spaces() {
    let (_, performer) = feed(b"a\tb");
    assert_eq!(performer.grid().cursor_x(), 6);
    let text = performer.grid().to_string();
    assert!(text.starts_with("a    b"));
}

#[test]
fn form_feed_clears_the_screen() {
    let (_, performer) = feed(b"junk\x0c");
    assert_eq!(performer.grid().to_string(), screen(&[], 24, 80));
    assert_eq!(performer.grid().cursor_x(), 0);
    assert_eq!(performer.grid().cursor_y(), 0);
}

#[test]
fn backspace_erases_the_previous_cell() {
    let (_, performer) = feed(b"ab\x08");
    assert_eq!(performer.grid().cursor_x(), 1);
    assert!(performer.grid().to_string().starts_with("a "));
}

#[test]
fn erase_line_to_end() {
    let (_, performer) = feed(b"abcdef\x1b[1;3H\x1b[K");
    assert!(performer.grid().to_string().starts_with("ab "));
}

#[test]
fn erase_line_from_start() {
    let (_, performer) = feed(b"abcdef\x1b[1;3H\x1b[1K");
    let text = performer.grid().to_string();
    assert!(text.starts_with("   def"));
}

#[test]
fn erase_whole_line() {
    let (_, performer) = feed(b"abcdef\x1b[1;3H\x1b[2K");
    assert_eq!(performer.grid().to_string(), screen(&[], 24, 80));
}

#[test]
fn erase_display_below() {
    let (_, performer) = feed(b"ab\r\ncd\r\nef\x1b[2;1H\x1b[J");
    let text = performer.grid().to_string();
    assert_eq!(text, screen(&["ab"], 24, 80));
}

#[test]
fn erase_display_above() {
    let (_, performer) = feed(b"ab\r\ncd\r\nef\x1b[2;2H\x1b[1J");
    let text = performer.grid().to_string();
    assert_eq!(text, screen(&["", "  ", "ef"], 24, 80));
}

#[test]
fn delete_characters_at_the_cursor() {
    let (_, performer) = feed(b"abcdef\x1b[1;2H\x1b[2P");
    assert!(performer.grid().to_string().starts_with("adef "));
}

#[test]
fn scroll_up_by_parameter() {
    let (_, performer) = feed(b"l1\r\nl2\r\nl3\x1b[2S");
    let grid = performer.grid();
    assert_eq!(grid.scrollback_len(), 2);
    let text = grid.to_string();
    assert!(text.starts_with("l3"));
}

#[test]
fn scroll_up_then_down_by_parameter_restores_the_screen() {
    let (_, performer) = feed(b"l1\r\nl2\r\nl3");
    let before = performer.grid().to_string();
    let (_, performer) = feed(b"l1\r\nl2\r\nl3\x1b[2S\x1b[2T");
    assert_eq!(performer.grid().to_string(), before);
}

#[test]
fn unknown_csi_actions_are_ignored() {
    let (_, performer) = feed(b"ab\x1b[5m\x1b[?25l\x1b[99q");
    assert!(performer.grid().to_string().starts_with("ab "));
    assert_eq!(performer.grid().cursor_x(), 2);
}

#[test]
fn malformed_escape_is_swallowed() {
    let (_, performer) = feed(b"a\x1bZb");
    // ESC Z is dispatched to nothing; the text around it survives.
    assert!(performer.grid().to_string().starts_with("ab "));
}

#[test]
fn osc_strings_are_consumed_and_ignored() {
    let (_, performer) = feed(b"a\x1b]0;window title\x07b");
    assert!(performer.grid().to_string().starts_with("ab "));
    let (_, performer) = feed(b"a\x1b]0;window title\x1b\\b");
    assert!(performer.grid().to_string().starts_with("ab "));
}

#[test]
fn device_control_strings_are_consumed_and_ignored() {
    let (_, performer) = feed(b"a\x1bPsome device control\x1b\\b");
    assert!(performer.grid().to_string().starts_with("ab "));
}

#[test]
fn charset_designation_sequences_are_ignored() {
    let (_, performer) = feed(b"a\x1b(Bb");
    assert!(performer.grid().to_string().starts_with("ab "));
    assert_eq!(performer.grid().cursor_x(), 2);
}

#[test]
fn utf8_two_byte_character_prints_as_one_cell() {
    let (_, performer) = feed("caf\u{e9}!".as_bytes());
    let text = performer.grid().to_string();
    assert!(text.starts_with("caf\u{e9}!"));
    assert_eq!(performer.grid().cursor_x(), 5);
}

#[test]
fn utf8_three_and_four_byte_characters_print() {
    let (_, performer) = feed("\u{20ac}\u{1f600}".as_bytes());
    let text = performer.grid().to_string();
    assert!(text.starts_with("\u{20ac}\u{1f600}"));
    assert_eq!(performer.grid().cursor_x(), 2);
}

#[test]
fn overlong_and_invalid_utf8_is_dropped() {
    // 0xC0 0xAF is an overlong encoding of '/'; 0xFF is never valid.
    let (_, performer) = feed(b"a\xc0\xafb\xffc");
    assert!(performer.grid().to_string().starts_with("abc "));
    assert_eq!(performer.grid().cursor_x(), 3);
}

#[test]
fn utf8_surrogate_range_is_rejected() {
    // 0xED 0xA0 0x80 would decode to the surrogate U+D800.
    let (_, performer) = feed(b"a\xed\xa0\x80b");
    assert!(performer.grid().to_string().starts_with("ab "));
}

#[test]
fn control_bytes_act_inside_a_csi_sequence() {
    // The backspace executes while the sequence is still being collected.
    let (_, performer) = feed(b"ab\x1b[\x085C");
    // Backspace erased 'b', then the cursor moved right by 5.
    assert_eq!(performer.grid().cursor_x(), 6);
    assert!(performer.grid().to_string().starts_with("a "));
}

#[test]
fn parameters_saturate_instead_of_overflowing() {
    let (_, performer) = feed(b"\x1b[99999999999999999999C");
    assert_eq!(performer.grid().cursor_x(), 79);
}
