use icode_cli::debug_panel::{DebugAction, DebugPanelState, DebugTab};
use icode_cli::keys::{KeyCode, KeyEvent, KeyModifiers};

fn key(code: KeyCode, modifiers: KeyModifiers) -> KeyEvent {
    KeyEvent::new(code, modifiers)
}

#[test]
fn debug_panel_test_new_state_defaults() {
    let state = DebugPanelState::new();
    assert!(!state.open);
    assert_eq!(state.tab, DebugTab::AppState);
}

#[test]
fn test_open_close_toggle() {
    let mut state = DebugPanelState::new();
    state.open();
    assert!(state.open);
    state.close();
    assert!(!state.open);
    state.toggle();
    assert!(state.open);
    state.toggle();
    assert!(!state.open);
}

#[test]
fn test_tab_navigation() {
    let mut state = DebugPanelState::new();
    assert_eq!(state.tab, DebugTab::AppState);
    state.next_tab();
    assert_eq!(state.tab, DebugTab::EventLog);
    state.next_tab();
    assert_eq!(state.tab, DebugTab::Memory);
    state.next_tab();
    assert_eq!(state.tab, DebugTab::Performance);
    state.next_tab();
    assert_eq!(state.tab, DebugTab::AppState);
    state.prev_tab();
    assert_eq!(state.tab, DebugTab::Performance);
}

#[test]
fn debug_panel_test_handle_key_esc_closes() {
    let mut state = DebugPanelState::new();
    state.open();
    let action = state.handle_key(key(KeyCode::Esc, KeyModifiers::none()));
    assert!(matches!(action, DebugAction::Close));
    assert!(!state.open);
}

#[test]
fn test_handle_key_q_closes() {
    let mut state = DebugPanelState::new();
    state.open();
    let action = state.handle_key(key(KeyCode::Char('q'), KeyModifiers::none()));
    assert!(matches!(action, DebugAction::Close));
}

#[test]
fn test_handle_key_tab_switches() {
    let mut state = DebugPanelState::new();
    state.open();
    let action = state.handle_key(key(KeyCode::Tab, KeyModifiers::none()));
    assert!(matches!(action, DebugAction::NextTab));
    assert_eq!(state.tab, DebugTab::EventLog);
}

#[test]
fn test_handle_key_number_jumps() {
    let mut state = DebugPanelState::new();
    state.open();
    state.handle_key(key(KeyCode::Char('3'), KeyModifiers::none()));
    assert_eq!(state.tab, DebugTab::Memory);
    state.handle_key(key(KeyCode::Char('4'), KeyModifiers::none()));
    assert_eq!(state.tab, DebugTab::Performance);
    state.handle_key(key(KeyCode::Char('1'), KeyModifiers::none()));
    assert_eq!(state.tab, DebugTab::AppState);
}

#[test]
fn test_debug_tab_label() {
    assert_eq!(DebugTab::AppState.label(), "State");
    assert_eq!(DebugTab::EventLog.label(), "Events");
    assert_eq!(DebugTab::Memory.label(), "Memory");
    assert_eq!(DebugTab::Performance.label(), "Perf");
}

#[test]
fn debug_panel_test_default_implementation() {
    let state = DebugPanelState::default();
    assert!(!state.open);
}

#[test]
fn next_then_prev_tab_returns_for_every_tab() {
    for tab in DebugTab::all() {
        let mut state = DebugPanelState::new();
        state.tab = tab;
        state.next_tab();
        state.prev_tab();
        assert_eq!(state.tab, tab);
    }
}
