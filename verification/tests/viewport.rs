use modal_editor::viewport::{pad_line, screen_position, scroll_offset, status_line, visible_rows};

fn row(s: &str) -> Vec<char> {
    s.chars().collect()
}

#[test]
fn scroll_keeps_cursor_in_band() {
    // Cursor above the band: scroll up to reveal it.
    assert_eq!(scroll_offset(10, 3, 5), 3);
    // Cursor below the band: scroll down so it sits on the last row.
    assert_eq!(scroll_offset(0, 7, 5), 3);
    // Cursor already visible: unchanged.
    assert_eq!(scroll_offset(2, 4, 5), 2);
    assert_eq!(scroll_offset(2, 2, 5), 2);
    assert_eq!(scroll_offset(2, 6, 5), 2);
    // A band of one row follows the cursor exactly.
    assert_eq!(scroll_offset(0, 9, 1), 9);
}

#[test]
fn padding_fills_to_width_and_never_truncates() {
    assert_eq!(pad_line(&row("ab"), 5), row("ab   "));
    assert_eq!(pad_line(&row("abcde"), 5), row("abcde"));
    assert_eq!(pad_line(&row("abcdef"), 5), row("abcdef"));
    assert_eq!(pad_line(&row(""), 3), row("   "));
}

#[test]
fn frame_draws_rows_from_offset_and_blanks_past_end() {
    let content = vec![row("one"), row("two"), row("three")];
    let rows = visible_rows(&content, 1, 6, 4);
    assert_eq!(rows.len(), 4);
    assert_eq!(rows[0], row("two   "));
    assert_eq!(rows[1], row("three "));
    assert_eq!(rows[2], row("      "));
    assert_eq!(rows[3], row("      "));
}

#[test]
fn status_line_renders_cursor_and_offset() {
    assert_eq!(status_line(3, 12, 7), row("x: 3, y: 12 offset: 7"));
    assert_eq!(status_line(0, 0, 0), row("x: 0, y: 0 offset: 0"));
    assert_eq!(status_line(105, 9, 30), row("x: 105, y: 9 offset: 30"));
}

#[test]
fn screen_cursor_is_relative_to_offset() {
    assert_eq!(screen_position(4, 9, 6), (4, 3));
    assert_eq!(screen_position(0, 5, 5), (0, 0));
}
