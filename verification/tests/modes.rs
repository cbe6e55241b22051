use modal_editor::key::KeyEvent;
use modal_editor::mode_manager::{ModeManager, State};

#[test]
fn test_init_in_normal_mode() {
    let state_manager = ModeManager::new();
    assert_eq!(state_manager.current_state(), State::NormalMode);
}

#[test]
fn test_go_to_insert_mode() {
    let mut state_manager = ModeManager::new();
    state_manager.handle_key(KeyEvent::Char('i'));
    assert_eq!(state_manager.current_state(), State::InsertMode);
}

#[test]
fn visual_and_command_line_reachable_and_escape_to_normal() {
    let mut mm = ModeManager::new();
    mm.handle_key(KeyEvent::Char('v'));
    assert_eq!(mm.current_state(), State::VisualMode);
    mm.handle_key(KeyEvent::Esc);
    assert_eq!(mm.current_state(), State::NormalMode);

    mm.handle_key(KeyEvent::Char(':'));
    assert_eq!(mm.current_state(), State::CommandLineMode);
    mm.handle_key(KeyEvent::Esc);
    assert_eq!(mm.current_state(), State::NormalMode);
}

#[test]
fn unmapped_pair_leaves_mode_unchanged() {
    let mut mm = ModeManager::new();
    mm.handle_key(KeyEvent::Char('i'));
    assert_eq!(mm.current_state(), State::InsertMode);

    mm.handle_key(KeyEvent::Char('v'));
    assert_eq!(mm.current_state(), State::InsertMode);
    mm.handle_key(KeyEvent::Backspace);
    assert_eq!(mm.current_state(), State::InsertMode);
    mm.handle_key(KeyEvent::Up);
    assert_eq!(mm.current_state(), State::InsertMode);

    let mut normal = ModeManager::new();
    normal.handle_key(KeyEvent::Char('x'));
    assert_eq!(normal.current_state(), State::NormalMode);
    normal.handle_key(KeyEvent::Esc);
    assert_eq!(normal.current_state(), State::NormalMode);
}
