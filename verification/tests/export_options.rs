use icode_cli::dialog_export_options::{option_labels, ExportAction, ExportOptionsState};
use icode_cli::keys::{KeyCode, KeyEvent, KeyModifiers};

fn key(code: KeyCode, modifiers: KeyModifiers) -> KeyEvent {
    KeyEvent::new(code, modifiers)
}

#[test]
fn dialog_export_options_test_new_state_defaults() {
    let state = ExportOptionsState::new();
    assert!(!state.open);
    assert!(state.include_thinking);
    assert!(state.include_tool_details);
    assert!(state.include_metadata);
    assert!(state.include_timestamps);
    assert_eq!(state.selected, 0);
    assert!(!state.editing_filename);
    assert!(state.filename.starts_with("export-"));
    assert!(state.filename.ends_with(".txt"));
    assert_eq!(state.format_idx, 1);
}

#[test]
fn dialog_export_options_test_open_close() {
    let mut state = ExportOptionsState::new();
    state.open();
    assert!(state.open);
    state.close();
    assert!(!state.open);
}

#[test]
fn dialog_export_options_test_esc_closes() {
    let mut state = ExportOptionsState::new();
    state.open();
    let action = state.handle_key(key(KeyCode::Esc, KeyModifiers::none()));
    assert!(matches!(action, ExportAction::Close));
    assert!(!state.open);
}

#[test]
fn dialog_export_options_test_ctrl_c_closes() {
    let mut state = ExportOptionsState::new();
    state.open();
    let action = state.handle_key(key(KeyCode::Char('c'), KeyModifiers::control()));
    assert!(matches!(action, ExportAction::Close));
    assert!(!state.open);
}

#[test]
fn test_enter_confirms() {
    let mut state = ExportOptionsState::new();
    state.open();
    let action = state.handle_key(key(KeyCode::Enter, KeyModifiers::none()));
    assert!(matches!(action, ExportAction::Confirm));
    assert!(!state.open);
}

#[test]
fn test_space_toggles_option() {
    let mut state = ExportOptionsState::new();
    state.open();
    let action = state.handle_key(key(KeyCode::Char(' '), KeyModifiers::none()));
    assert!(matches!(action, ExportAction::Toggle(0)));
    assert!(!state.include_thinking);
    let action = state.handle_key(key(KeyCode::Char(' '), KeyModifiers::none()));
    assert!(matches!(action, ExportAction::Toggle(0)));
    assert!(state.include_thinking);
}

#[test]
fn test_toggle_all_options() {
    let mut state = ExportOptionsState::new();
    state.open();
    for idx in 0..option_labels().len() {
        state.selected = idx;
        state.handle_key(key(KeyCode::Char(' '), KeyModifiers::none()));
        assert!(!state.checkbox_value(idx));
        state.handle_key(key(KeyCode::Char(' '), KeyModifiers::none()));
        assert!(state.checkbox_value(idx));
    }
}

#[test]
fn dialog_export_options_test_navigation() {
    let mut state = ExportOptionsState::new();
    state.open();
    assert_eq!(state.selected, 0);
    state.handle_key(key(KeyCode::Down, KeyModifiers::none()));
    assert_eq!(state.selected, 1);
    state.handle_key(key(KeyCode::Down, KeyModifiers::none()));
    assert_eq!(state.selected, 2);
    state.handle_key(key(KeyCode::Down, KeyModifiers::none()));
    assert_eq!(state.selected, 3);
    state.handle_key(key(KeyCode::Down, KeyModifiers::none()));
    assert_eq!(state.selected, 4);
    state.handle_key(key(KeyCode::Up, KeyModifiers::none()));
    assert_eq!(state.selected, 3);
    state.handle_key(key(KeyCode::Up, KeyModifiers::none()));
    assert_eq!(state.selected, 2);
}

#[test]
fn test_filename_editing() {
    let mut state = ExportOptionsState::new();
    state.open();
    state.selected = option_labels().len() + 1;
    let action = state.handle_key(key(KeyCode::Char('f'), KeyModifiers::none()));
    assert!(matches!(action, ExportAction::EditFilename));
    assert!(state.editing_filename);
    state.handle_key(key(KeyCode::Char('m'), KeyModifiers::none()));
    state.handle_key(key(KeyCode::Char('y'), KeyModifiers::none()));
    assert!(state.filename.contains("my"));
    state.handle_key(key(KeyCode::Backspace, KeyModifiers::none()));
    assert!(!state.filename.ends_with('y'));
    let action = state.handle_key(key(KeyCode::Enter, KeyModifiers::none()));
    assert!(matches!(action, ExportAction::Nothing));
    assert!(!state.editing_filename);
}

#[test]
fn test_checkbox_value_and_set() {
    let mut state = ExportOptionsState::new();
    state.include_thinking = false;
    state.include_tool_details = true;
    assert!(!state.checkbox_value(0));
    assert!(state.checkbox_value(1));
    state.set_checkbox(0, true);
    assert!(state.checkbox_value(0));
    state.set_checkbox(2, true);
    assert!(state.include_metadata);
}

#[test]
fn dialog_export_options_test_default_implementation() {
    let state = ExportOptionsState::default();
    assert!(!state.open);
}

#[test]
fn default_filename_uses_the_time() {
    let state = ExportOptionsState::new_at(1_700_000_000);
    assert_eq!(state.filename, "export-1700000000.txt");
}

#[test]
fn set_then_read_every_checkbox() {
    let mut state = ExportOptionsState::new();
    for idx in 0..4 {
        for value in [false, true] {
            state.set_checkbox(idx, value);
            assert_eq!(state.checkbox_value(idx), value);
        }
    }
}
