use modal_editor::editor::Editor;
use modal_editor::key::KeyEvent;
use modal_editor::mode_manager::State;
use modal_editor::storage::{lines_to_text, split_text};

fn row(s: &str) -> Vec<char> {
    s.chars().collect()
}

/// Inserting a run of characters at a fixed cursor on an empty line
/// yields exactly the inserted characters in call order.
#[test]
fn insert_run_concatenates_in_call_order() {
    let mut editor = Editor::from_strings(vec![]);
    editor.handle_key(KeyEvent::Char('i'));
    for c in ['e', 'd', 'i', 't', 'o', 'r'] {
        editor.insert_char(c);
    }
    assert_eq!(editor.get_content(), vec![row("editor")]);
    assert_eq!(editor.get_cursor(), (6, 0));
}

/// Splitting in the middle of a line on a buffer with a prefix and
/// suffix around the cursor keeps every character.
#[test]
fn insert_run_in_the_middle_keeps_prefix_and_suffix() {
    let mut editor = Editor::from_strings(vec![String::from("abef")]);
    editor.cursor_x = 2;
    editor.insert_char('c');
    editor.insert_char('d');
    assert_eq!(editor.get_content(), vec![row("abcdef")]);
    assert_eq!(editor.get_cursor(), (4, 0));
}

/// Splitting a line of length 5 at every column in [0, 5] yields two
/// lines of lengths c and 5 - c whose concatenation is the original.
#[test]
fn enter_splits_at_every_column() {
    for c in 0..6usize {
        let mut editor = Editor::from_strings(vec![String::from("Hello")]);
        editor.cursor_x = c;
        editor.enter();
        let content = editor.get_content();
        assert_eq!(content.len(), 2);
        assert_eq!(content[0].len(), c);
        assert_eq!(content[1].len(), 5 - c);
        let mut joined = content[0].clone();
        joined.extend_from_slice(&content[1]);
        assert_eq!(joined, row("Hello"));
        assert_eq!(editor.get_cursor(), (0, 1));
    }
}

/// A step right at the end of a line and a step left at column zero are
/// no-ops, however often they are repeated.
#[test]
fn horizontal_moves_idempotent_at_the_ends() {
    let mut editor = Editor::from_strings(vec![String::from("ab")]);
    editor.move_cursor_right();
    editor.move_cursor_right();
    assert_eq!(editor.cursor_x, 2);
    editor.move_cursor_right();
    editor.move_cursor_right();
    assert_eq!(editor.cursor_x, 2);

    editor.move_cursor_left();
    editor.move_cursor_left();
    assert_eq!(editor.cursor_x, 0);
    editor.move_cursor_left();
    editor.move_cursor_left();
    assert_eq!(editor.cursor_x, 0);
}

/// Vertical moves keep the row inside the buffer and clamp the column
/// to the new line's length.
#[test]
fn vertical_moves_stay_in_bounds_and_clamp_column() {
    let mut editor = Editor::from_strings(vec![
        String::from("long line"),
        String::from("ab"),
        String::from("medium"),
    ]);
    editor.move_cursor_up();
    assert_eq!(editor.get_cursor(), (0, 0));

    editor.cursor_x = 9;
    editor.move_cursor_down();
    assert_eq!(editor.get_cursor(), (2, 1));
    editor.move_cursor_down();
    assert_eq!(editor.get_cursor(), (2, 2));
    editor.move_cursor_down();
    assert_eq!(editor.get_cursor(), (2, 2));

    editor.cursor_x = 6;
    editor.move_cursor_up();
    assert_eq!(editor.get_cursor(), (2, 1));
}

/// Typing "hi", enter, "there" from an empty buffer in insert mode,
/// then escape, leaves the buffer ["hi", "there"], the cursor at
/// (5, 1), and the editor back in normal mode.
#[test]
fn insert_session_scenario() {
    let mut editor = Editor::from_strings(vec![]);
    assert_eq!(editor.current_mode(), State::NormalMode);

    editor.handle_key(KeyEvent::Char('i'));
    assert_eq!(editor.current_mode(), State::InsertMode);

    editor.handle_key(KeyEvent::Char('h'));
    editor.handle_key(KeyEvent::Char('i'));
    editor.handle_key(KeyEvent::Enter);
    for c in ['t', 'h', 'e', 'r', 'e'] {
        editor.handle_key(KeyEvent::Char(c));
    }
    editor.handle_key(KeyEvent::Esc);

    assert_eq!(editor.get_content(), vec![row("hi"), row("there")]);
    assert_eq!(editor.get_cursor(), (5, 1));
    assert_eq!(editor.current_mode(), State::NormalMode);
    assert!(!editor.is_exiting());
}

/// A two-line buffer written to storage and loaded back is identical.
#[test]
fn storage_round_trip_scenario() {
    let buffer = vec![row("Hello"), row("World")];
    let text = lines_to_text(&buffer);
    assert_eq!(text, row("Hello\nWorld\n"));
    let reloaded = split_text(&text);
    assert_eq!(reloaded, buffer);
}

/// Escape in normal mode sets the exit flag and mutates nothing else.
#[test]
fn escape_in_normal_mode_sets_exit_flag() {
    let mut editor = Editor::from_strings(vec![String::from("keep me")]);
    let before = editor.get_content();
    assert!(!editor.is_exiting());

    editor.handle_key(KeyEvent::Esc);

    assert!(editor.is_exiting());
    assert_eq!(editor.get_content(), before);
    assert_eq!(editor.get_cursor(), (0, 0));
    assert_eq!(editor.current_mode(), State::NormalMode);
}

/// In normal mode no text-mutating key is forwarded to the buffer.
#[test]
fn normal_mode_forwards_only_arrow_keys() {
    let mut editor = Editor::from_strings(vec![String::from("ab")]);
    editor.handle_key(KeyEvent::Char('x'));
    editor.handle_key(KeyEvent::Backspace);
    editor.handle_key(KeyEvent::Enter);
    assert_eq!(editor.get_content(), vec![row("ab")]);

    editor.handle_key(KeyEvent::Right);
    assert_eq!(editor.get_cursor(), (1, 0));
}

/// Backspace at column zero of a later row does not merge lines.
#[test]
fn backspace_at_column_zero_does_not_merge() {
    let mut editor = Editor::from_strings(vec![String::from("one"), String::from("two")]);
    editor.move_cursor_down();
    assert_eq!(editor.get_cursor(), (0, 1));
    editor.backspace();
    assert_eq!(editor.get_content(), vec![row("one"), row("two")]);
    assert_eq!(editor.get_cursor(), (0, 1));
}
