use icode_cli::connect::{dialog_height, dialog_width, ConnectAction, ConnectDialogState, ConnectStatus};
use icode_cli::keys::{KeyCode, KeyEvent, KeyModifiers};
use icode_cli::providers::ProviderKind;

fn key(code: KeyCode, modifiers: KeyModifiers) -> KeyEvent {
    KeyEvent::new(code, modifiers)
}

#[test]
fn dialog_connect_test_new_state_defaults() {
    let state = ConnectDialogState::new();
    assert!(!state.open);
    assert!(state.provider_name.is_empty());
    assert!(state.api_key_input.is_empty());
    assert!(state.key_masked);
    assert!(matches!(state.status, ConnectStatus::Pending));
}

#[test]
fn test_open_initializes() {
    let mut state = ConnectDialogState::new();
    state.open("OpenAI".to_string(), ProviderKind::OpenAi);
    assert!(state.open);
    assert_eq!(state.provider_name, "OpenAI");
    assert_eq!(state.provider_kind, ProviderKind::OpenAi);
}

#[test]
fn dialog_connect_test_esc_closes() {
    let mut state = ConnectDialogState::new();
    state.open("Anthropic".to_string(), ProviderKind::Anthropic);
    let action = state.handle_key(key(KeyCode::Esc, KeyModifiers::none()));
    assert!(matches!(action, ConnectAction::Close));
    assert!(!state.open);
}

#[test]
fn dialog_connect_test_ctrl_c_closes() {
    let mut state = ConnectDialogState::new();
    state.open("Gemini".to_string(), ProviderKind::Gemini);
    let action = state.handle_key(key(KeyCode::Char('c'), KeyModifiers::control()));
    assert!(matches!(action, ConnectAction::Close));
}

#[test]
fn test_enter_submits_with_key() {
    let mut state = ConnectDialogState::new();
    state.open("OpenAI".to_string(), ProviderKind::OpenAi);
    state.api_key_input = "sk-test-key".to_string();
    let action = state.handle_key(key(KeyCode::Enter, KeyModifiers::none()));
    assert!(matches!(action, ConnectAction::Submit(ref k) if k == "sk-test-key"));
    assert!(matches!(state.status, ConnectStatus::Connecting));
}

#[test]
fn test_enter_empty_does_nothing() {
    let mut state = ConnectDialogState::new();
    state.open("OpenAI".to_string(), ProviderKind::OpenAi);
    let action = state.handle_key(key(KeyCode::Enter, KeyModifiers::none()));
    assert!(matches!(action, ConnectAction::Nothing));
}

#[test]
fn test_char_appends_to_input() {
    let mut state = ConnectDialogState::new();
    state.open("OpenAI".to_string(), ProviderKind::OpenAi);
    state.handle_key(key(KeyCode::Char('a'), KeyModifiers::none()));
    state.handle_key(key(KeyCode::Char('b'), KeyModifiers::none()));
    state.handle_key(key(KeyCode::Char('c'), KeyModifiers::none()));
    assert_eq!(state.api_key_input, "abc");
}

#[test]
fn test_backspace_removes_last_char() {
    let mut state = ConnectDialogState::new();
    state.open("OpenAI".to_string(), ProviderKind::OpenAi);
    state.api_key_input = "hello".to_string();
    state.handle_key(key(KeyCode::Backspace, KeyModifiers::none()));
    assert_eq!(state.api_key_input, "hell");
}

#[test]
fn test_error_cleared_on_input() {
    let mut state = ConnectDialogState::new();
    state.open("OpenAI".to_string(), ProviderKind::OpenAi);
    state.status = ConnectStatus::Error("Invalid key".to_string());
    state.handle_key(key(KeyCode::Char('x'), KeyModifiers::none()));
    assert!(matches!(state.status, ConnectStatus::Pending));
}

#[test]
fn test_error_cleared_on_backspace() {
    let mut state = ConnectDialogState::new();
    state.open("OpenAI".to_string(), ProviderKind::OpenAi);
    state.status = ConnectStatus::Error("Invalid key".to_string());
    state.handle_key(key(KeyCode::Backspace, KeyModifiers::none()));
    assert!(matches!(state.status, ConnectStatus::Pending));
}

#[test]
fn test_mark_success() {
    let mut state = ConnectDialogState::new();
    state.open("OpenAI".to_string(), ProviderKind::OpenAi);
    state.mark_success();
    assert!(matches!(state.status, ConnectStatus::Success));
}

#[test]
fn test_mark_error() {
    let mut state = ConnectDialogState::new();
    state.open("OpenAI".to_string(), ProviderKind::OpenAi);
    state.mark_error("Rate limited".to_string());
    assert!(matches!(state.status, ConnectStatus::Error(ref msg) if msg == "Rate limited"));
}

#[test]
fn enter_submits_the_trimmed_key() {
    let mut state = ConnectDialogState::new();
    state.open("OpenAI".to_string(), ProviderKind::OpenAi);
    state.api_key_input = "  sk-x  ".to_string();
    let action = state.handle_key(key(KeyCode::Enter, KeyModifiers::none()));
    assert!(matches!(action, ConnectAction::Submit(ref k) if k == "sk-x"));
    state.api_key_input = "   ".to_string();
    state.status = ConnectStatus::Pending;
    let action = state.handle_key(key(KeyCode::Enter, KeyModifiers::none()));
    assert!(matches!(action, ConnectAction::Nothing));
    assert!(matches!(state.status, ConnectStatus::Pending));
}

#[test]
fn connect_dialog_size() {
    assert_eq!(dialog_width(40), 48);
    assert_eq!(dialog_width(70), 50);
    assert_eq!(dialog_width(200), 60);
    assert_eq!(dialog_height(100), 8);
}
