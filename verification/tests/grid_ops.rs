use nebula_term::TerminalGrid;

fn line(text: &str, cols: usize) -> String {
    let mut s = String::from(text);
    while s.chars().count() < cols {
        s.push(' ');
    }
    s
}

fn blank_screen(rows: usize, cols: usize) -> String {
    let mut s = String::new();
    for r in 0..rows {
        s.push_str(&line("", cols));
        if r < rows - 1 {
            s.push('\n');
        }
    }
    s
}

#[test]
fn fresh_grid_is_blank_with_cursor_at_origin() {
    let g = TerminalGrid::new(3, 4);
    assert_eq!(g.rows(), 3);
    assert_eq!(g.cols(), 4);
    assert_eq!(g.cursor_x(), 0);
    assert_eq!(g.cursor_y(), 0);
    assert!(g.is_dirty());
    assert_eq!(g.to_string(), "    \n    \n    ");
}

#[test]
fn print_char_advances_cursor() {
    let mut g = TerminalGrid::new(3, 4);
    g.print_char('a');
    g.print_char('b');
    assert_eq!(g.cursor_x(), 2);
    assert_eq!(g.cursor_y(), 0);
    assert_eq!(g.to_string(), "ab  \n    \n    ");
}

#[test]
fn print_at_last_column_wraps_to_next_row() {
    let mut g = TerminalGrid::new(3, 4);
    g.print_str("abcd");
    assert_eq!(g.cursor_x(), 0);
    assert_eq!(g.cursor_y(), 1);
    assert_eq!(g.to_string(), "abcd\n    \n    ");
    g.print_char('e');
    assert_eq!(g.to_string(), "abcd\ne   \n    ");
}

#[test]
fn cursor_never_rests_at_the_right_margin() {
    let mut g = TerminalGrid::new(3, 4);
    for _ in 0..11 {
        g.print_char('x');
        assert!(g.cursor_x() < g.cols());
    }
}

#[test]
fn wrap_on_bottom_row_promotes_top_line_to_scrollback() {
    let mut g = TerminalGrid::new(2, 3);
    g.print_str("abcdef");
    // Both visible rows were filled; filling the bottom one scrolled.
    assert_eq!(g.scrollback_len(), 1);
    assert_eq!(g.cursor_x(), 0);
    assert_eq!(g.cursor_y(), 1);
    assert_eq!(g.to_string(), "def\n   ");
}

#[test]
fn newline_keeps_the_column() {
    let mut g = TerminalGrid::new(3, 4);
    g.print_str("ab");
    g.newline();
    assert_eq!(g.cursor_x(), 2);
    assert_eq!(g.cursor_y(), 1);
}

#[test]
fn carriage_return_resets_the_column() {
    let mut g = TerminalGrid::new(3, 4);
    g.print_str("ab");
    g.carriage_return();
    assert_eq!(g.cursor_x(), 0);
    assert_eq!(g.cursor_y(), 0);
}

#[test]
fn backspace_is_destructive() {
    let mut g = TerminalGrid::new(3, 4);
    g.print_str("ab");
    g.backspace();
    assert_eq!(g.cursor_x(), 1);
    assert_eq!(g.to_string(), "a   \n    \n    ");
}

#[test]
fn backspace_at_left_margin_does_nothing() {
    let mut g = TerminalGrid::new(3, 4);
    g.print_str("a");
    g.carriage_return();
    g.backspace();
    assert_eq!(g.cursor_x(), 0);
    assert_eq!(g.to_string(), "a   \n    \n    ");
}

#[test]
fn clear_screen_blanks_everything_and_homes_the_cursor() {
    let mut g = TerminalGrid::new(3, 4);
    g.print_str("abcdefgh");
    g.clear_screen();
    assert_eq!(g.cursor_x(), 0);
    assert_eq!(g.cursor_y(), 0);
    assert_eq!(g.to_string(), blank_screen(3, 4));
}

#[test]
fn clear_line_blanks_from_the_given_column() {
    let mut g = TerminalGrid::new(2, 4);
    g.print_str("abcd");
    g.move_cursor(1, 0);
    g.clear_line(1);
    assert_eq!(g.to_string(), "a   \n    ");
}

#[test]
fn scroll_up_then_scroll_down_restores_the_top_line() {
    let mut g = TerminalGrid::new(2, 3);
    g.print_str("abc");
    g.print_str("de");
    let before = g.to_string();
    assert_eq!(g.scroll_offset(), 0);
    g.scroll_up();
    assert_eq!(g.scroll_offset(), 1);
    assert_eq!(g.scrollback_len(), 1);
    g.scroll_down();
    assert_eq!(g.scroll_offset(), 0);
    assert_eq!(g.scrollback_len(), 0);
    assert_eq!(g.to_string(), before);
}

#[test]
fn scroll_down_without_offset_is_a_no_op() {
    let mut g = TerminalGrid::new(2, 3);
    g.print_str("ab");
    let before = g.to_string();
    g.scroll_down();
    assert_eq!(g.to_string(), before);
    assert_eq!(g.scroll_offset(), 0);
}

#[test]
fn move_cursor_clamps_to_the_grid() {
    let mut g = TerminalGrid::new(3, 4);
    g.move_cursor(100, 100);
    assert_eq!(g.cursor_x(), 3);
    assert_eq!(g.cursor_y(), 2);
}

#[test]
fn relative_moves_floor_at_zero_and_clamp() {
    let mut g = TerminalGrid::new(3, 4);
    g.move_cursor(2, 1);
    g.move_cursor_relative(-5, -5);
    assert_eq!(g.cursor_x(), 0);
    assert_eq!(g.cursor_y(), 0);
    g.move_cursor_relative(100, 100);
    assert_eq!(g.cursor_x(), 3);
    assert_eq!(g.cursor_y(), 2);
}

#[test]
fn delete_chars_slides_the_row_left() {
    let mut g = TerminalGrid::new(2, 6);
    g.print_str("abcdef");
    g.move_cursor(1, 0);
    g.delete_chars(2);
    assert_eq!(g.to_string(), "adef  \n      ");
}

#[test]
fn delete_chars_beyond_the_row_blanks_the_tail() {
    let mut g = TerminalGrid::new(2, 4);
    g.print_str("abcd");
    g.move_cursor(2, 0);
    g.delete_chars(100);
    assert_eq!(g.to_string(), "ab  \n    ");
}

#[test]
fn dirty_flag_is_set_by_mutation_and_cleared_once() {
    let mut g = TerminalGrid::new(2, 2);
    g.clear_dirty();
    assert!(!g.is_dirty());
    g.print_char('x');
    assert!(g.is_dirty());
    g.clear_dirty();
    assert!(!g.is_dirty());
}

#[test]
fn to_string_shows_visible_scrollback_lines() {
    let mut g = TerminalGrid::new(2, 3);
    g.print_str("abc");
    g.print_str("def");
    // Filling both rows scrolled once; the promoted line is hidden by the
    // scroll offset.
    assert_eq!(g.scrollback_len(), 1);
    assert_eq!(g.scroll_offset(), 1);
    assert_eq!(g.to_string(), "def\n   ");
    g.scroll_down();
    assert_eq!(g.to_string(), "abc\ndef");
}
