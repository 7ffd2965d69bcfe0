use icode_cli::dialog_message_actions::{MessageAction, MessageActionDialogState};
use icode_cli::keys::KeyCode;

fn opened() -> MessageActionDialogState {
    let mut state = MessageActionDialogState::new();
    state.open(1, "test".to_string());
    state
}

#[test]
fn test_initial_state() {
    let state = MessageActionDialogState::new();
    assert!(!state.open);
    assert_eq!(state.selected, 0);
    assert!(state.filter.is_empty());
    assert_eq!(state.options.len(), 3);
}

#[test]
fn test_open_and_close() {
    let mut state = MessageActionDialogState::new();
    state.open(1, "test content".to_string());
    assert!(state.open);
    assert_eq!(state.message_id, 1);
    assert_eq!(state.message_content, "test content");
    state.close();
    assert!(!state.open);
}

#[test]
fn test_enter_selects_current() {
    let mut state = opened();
    let result = state.handle_key(KeyCode::Down);
    assert!(result.is_none());
    let result = state.handle_key(KeyCode::Enter);
    assert_eq!(result, Some(MessageAction::Copy));
    assert!(!state.open);
}

#[test]
fn test_numeric_shortcut_revert() {
    let mut state = opened();
    let result = state.handle_key(KeyCode::Char('1'));
    assert_eq!(result, Some(MessageAction::Revert));
    assert!(!state.open);
}

#[test]
fn test_numeric_shortcut_copy() {
    let mut state = opened();
    let result = state.handle_key(KeyCode::Char('2'));
    assert_eq!(result, Some(MessageAction::Copy));
}

#[test]
fn test_numeric_shortcut_fork() {
    let mut state = opened();
    let result = state.handle_key(KeyCode::Char('3'));
    assert_eq!(result, Some(MessageAction::Fork));
}

#[test]
fn dialog_message_actions_test_esc_closes() {
    let mut state = opened();
    let result = state.handle_key(KeyCode::Esc);
    assert!(result.is_none());
    assert!(!state.open);
}

#[test]
fn test_filter_reduces_options() {
    let mut state = opened();
    state.handle_key(KeyCode::Char('c'));
    assert_eq!(state.filter, "c");
    let filtered = state.filtered_options();
    assert_eq!(filtered.len(), 1);
    assert_eq!(filtered[0].value, MessageAction::Copy);
}

#[test]
fn test_filter_resets_selection() {
    let mut state = opened();
    state.handle_key(KeyCode::Down);
    state.handle_key(KeyCode::Down);
    assert_eq!(state.selected, 2);
    state.handle_key(KeyCode::Char('c'));
    assert_eq!(state.selected, 0);
}

#[test]
fn test_backspace_removes_filter() {
    let mut state = opened();
    state.handle_key(KeyCode::Char('c'));
    assert_eq!(state.filter, "c");
    state.handle_key(KeyCode::Backspace);
    assert_eq!(state.filter, "");
    assert_eq!(state.filtered_options().len(), 3);
}

#[test]
fn test_filter_case_insensitive() {
    let mut state = opened();
    state.handle_key(KeyCode::Char('R'));
    let filtered = state.filtered_options();
    assert_eq!(filtered.len(), 1);
    assert_eq!(filtered[0].value, MessageAction::Revert);
}

#[test]
fn test_up_down_navigation_with_filter() {
    let mut state = opened();
    state.handle_key(KeyCode::Down);
    assert_eq!(state.selected, 1);
    state.handle_key(KeyCode::Up);
    assert_eq!(state.selected, 0);
    state.handle_key(KeyCode::Up);
    assert_eq!(state.selected, 0);
    state.handle_key(KeyCode::Down);
    state.handle_key(KeyCode::Down);
    state.handle_key(KeyCode::Down);
    assert_eq!(state.selected, 2);
}

#[test]
fn test_control_chars_ignored() {
    let mut state = opened();
    state.handle_key(KeyCode::Tab);
    assert!(state.filter.is_empty());
}

#[test]
fn test_filter_by_description() {
    let mut state = opened();
    state.filter = "clipboard".to_string();
    let filtered = state.filtered_options();
    assert_eq!(filtered.len(), 1);
    assert_eq!(filtered[0].value, MessageAction::Copy);
}
