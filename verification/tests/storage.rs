use modal_editor::editor::{strings_to_char_buffer, Editor};
use modal_editor::storage::{lines_to_text, split_text};

fn row(s: &str) -> Vec<char> {
    s.chars().collect()
}

#[test]
fn empty_text_loads_as_no_lines() {
    let lines = split_text(&vec![]);
    assert_eq!(lines, Vec::<Vec<char>>::new());
}

#[test]
fn final_terminator_adds_no_line() {
    assert_eq!(split_text(&row("a\nb\n")), vec![row("a"), row("b")]);
    assert_eq!(split_text(&row("a\nb")), vec![row("a"), row("b")]);
    assert_eq!(split_text(&row("\n")), vec![row("")]);
    assert_eq!(split_text(&row("a\n\n")), vec![row("a"), row("")]);
}

#[test]
fn carriage_return_line_feed_is_one_terminator() {
    assert_eq!(split_text(&row("a\r\nb\r\n")), vec![row("a"), row("b")]);
    // A carriage return not followed by a line feed is an ordinary
    // character.
    assert_eq!(split_text(&row("a\rb")), vec![row("a\rb")]);
    assert_eq!(split_text(&row("a\r")), vec![row("a\r")]);
}

#[test]
fn saving_terminates_every_line() {
    assert_eq!(lines_to_text(&vec![row("")]), row("\n"));
    assert_eq!(lines_to_text(&vec![]), row(""));
    assert_eq!(lines_to_text(&vec![row("a"), row(""), row("b")]), row("a\n\nb\n"));
}

#[test]
fn loading_an_empty_file_starts_with_one_empty_line() {
    let text: Vec<char> = vec![];
    let editor = Editor::from_lines(split_text(&text));
    assert_eq!(editor.get_content(), vec![row("")]);
    assert_eq!(editor.get_cursor(), (0, 0));
}

#[test]
fn strings_become_character_lines() {
    let buffer = strings_to_char_buffer(vec![String::from("héllo"), String::from("")]);
    assert_eq!(buffer, vec![row("héllo"), row("")]);
}
