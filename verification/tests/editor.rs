use modal_editor::editor::Editor;
use modal_editor::key::KeyEvent;

#[test]
fn test_insert_char() {
    let mut editor = Editor::from_strings([].to_vec());
    editor.handle_key(KeyEvent::Char('i'));

    editor.insert_char('a');
    assert_eq!(editor.buffer[0], vec!['a']);
    assert_eq!(editor.cursor_x, 1);
}

#[test]
fn test_backspace() {
    let mut editor = Editor::from_strings([].to_vec());
    editor.handle_key(KeyEvent::Char('i'));

    editor.insert_char('a');
    editor.insert_char('b');
    editor.backspace();
    assert_eq!(editor.buffer[0], vec!['a']);
    assert_eq!(editor.cursor_x, 1);
}

#[test]
fn test_enter() {
    let mut editor = Editor::from_strings([].to_vec());
    editor.handle_key(KeyEvent::Char('i'));

    editor.insert_char('a');
    editor.insert_char('b');
    editor.enter();
    assert_eq!(editor.buffer.len(), 2);
    assert_eq!(editor.buffer[0], vec!['a', 'b']);
    assert_eq!(editor.buffer[1], vec![]);
    assert_eq!(editor.cursor_x, 0);
    assert_eq!(editor.cursor_y, 1);
}

#[test]
fn test_move_cursor_up_down() {
    let mut editor = Editor::from_strings([].to_vec());
    editor.handle_key(KeyEvent::Char('i'));

    editor.insert_char('x');
    editor.enter();
    editor.insert_char('y');

    editor.move_cursor_up();
    assert_eq!(editor.cursor_y, 0);
    assert_eq!(editor.cursor_x, 1);

    editor.move_cursor_down();
    assert_eq!(editor.cursor_y, 1);
    assert_eq!(editor.cursor_x, 1);
}

#[test]
fn test_move_cursor_left_right() {
    let mut editor = Editor::from_strings([].to_vec());
    editor.handle_key(KeyEvent::Char('i'));

    editor.insert_char('a');
    editor.insert_char('b');
    editor.move_cursor_left();
    assert_eq!(editor.cursor_x, 1);
    editor.move_cursor_right();
    assert_eq!(editor.cursor_x, 2);
    editor.move_cursor_right();
    assert_eq!(editor.cursor_x, 2);
}

#[test]
fn test_backspace_on_empty_line() {
    let mut editor = Editor::from_strings([].to_vec());
    editor.handle_key(KeyEvent::Char('i'));

    editor.backspace();
    assert_eq!(editor.cursor_x, 0);
}
