use icode_cli::keys::{KeyCode, KeyEvent, KeyModifiers};
use icode_cli::providers::{
    compute_scroll_offset, detect_providers, dialog_height, dialog_width, status_icon, ProviderAction, ProviderAuth,
    ProviderDialogState, ProviderKind, ProviderStatus,
};

fn key(code: KeyCode, modifiers: KeyModifiers) -> KeyEvent {
    KeyEvent::new(code, modifiers)
}

fn auth(name: &str, kind: ProviderKind, has_auth: bool) -> ProviderAuth {
    ProviderAuth { display_name: name.to_string(), kind, has_auth }
}

fn sample_providers() -> Vec<icode_cli::providers::ProviderEntry> {
    let statuses = vec![
        auth("Anthropic", ProviderKind::Anthropic, true),
        auth("OpenAI", ProviderKind::OpenAi, false),
        auth("Gemini", ProviderKind::Gemini, false),
        auth("Groq", ProviderKind::Groq, true),
    ];
    let models = vec![
        (ProviderKind::Anthropic, "opus".to_string()),
        (ProviderKind::OpenAi, "gpt-4o".to_string()),
        (ProviderKind::Anthropic, "sonnet".to_string()),
        (ProviderKind::Gemini, "gemini-pro".to_string()),
        (ProviderKind::Groq, "llama".to_string()),
    ];
    detect_providers(statuses, &models)
}

fn opened() -> ProviderDialogState {
    let mut state = ProviderDialogState::new(Vec::new());
    state.open(sample_providers());
    state
}

#[test]
fn dialog_providers_test_new_state() {
    let state = ProviderDialogState::new(sample_providers());
    assert!(!state.open);
    assert_eq!(state.selected, 0);
    assert!(state.providers.len() >= 3);
}

#[test]
fn dialog_providers_test_open_close() {
    let mut state = opened();
    assert!(state.open);
    state.close();
    assert!(!state.open);
}

#[test]
fn test_detect_providers() {
    let providers = sample_providers();
    assert!(providers.len() >= 3);
    let names: Vec<&str> = providers.iter().map(|p| p.name.as_str()).collect();
    assert!(names.contains(&"Anthropic"));
    assert!(names.contains(&"OpenAI"));
    assert_eq!(providers[0].models, vec!["opus".to_string(), "sonnet".to_string()]);
    assert_eq!(providers[0].status, ProviderStatus::Connected);
    assert_eq!(providers[1].status, ProviderStatus::Disconnected);
    assert!(!providers[1].configured);
}

#[test]
fn dialog_providers_test_esc_closes() {
    let mut state = opened();
    let action = state.handle_key(key(KeyCode::Esc, KeyModifiers::none()));
    assert!(matches!(action, ProviderAction::Close));
    assert!(!state.open);
}

#[test]
fn dialog_providers_test_ctrl_c_closes() {
    let mut state = opened();
    let action = state.handle_key(key(KeyCode::Char('c'), KeyModifiers::control()));
    assert!(matches!(action, ProviderAction::Close));
}

#[test]
fn test_enter_opens_connect_for_disconnected() {
    let mut state = opened();
    let disconnected_idx = state.providers.iter().position(|p| !p.configured).unwrap_or(0);
    state.selected = state.filtered.iter().position(|&f| f == disconnected_idx).unwrap_or(0);
    let action = state.handle_key(key(KeyCode::Enter, KeyModifiers::none()));
    if state.providers[disconnected_idx].configured {
        assert!(matches!(action, ProviderAction::Toggle(_)));
    } else {
        assert!(state.connect_dialog.open);
        assert!(matches!(action, ProviderAction::Nothing));
    }
}

#[test]
fn dialog_providers_test_navigation() {
    let mut state = opened();
    assert_eq!(state.selected, 0);
    state.handle_key(key(KeyCode::Down, KeyModifiers::none()));
    assert_eq!(state.selected, 1);
    state.handle_key(key(KeyCode::Down, KeyModifiers::none()));
    assert_eq!(state.selected, 2);
    state.handle_key(key(KeyCode::Up, KeyModifiers::none()));
    assert_eq!(state.selected, 1);
}

#[test]
fn dialog_providers_test_search_filters() {
    let mut state = opened();
    let initial_count = state.filtered.len();
    state.search = "anthropic".to_string();
    state.selected = 0;
    state.apply_filter();
    assert!(state.filtered.len() <= initial_count);
    assert_eq!(state.providers[state.filtered[0]].name, "Anthropic");
}

#[test]
fn test_d_opens_docs() {
    let mut state = opened();
    let action = state.handle_key(key(KeyCode::Char('d'), KeyModifiers::none()));
    assert!(matches!(action, ProviderAction::ViewDocs(0)));
}

#[test]
fn dialog_providers_test_page_navigation() {
    let mut state = opened();
    state.handle_key(key(KeyCode::PageDown, KeyModifiers::none()));
    assert_eq!(state.selected, 10.min(state.filtered.len().saturating_sub(1)));
}

#[test]
fn test_status_icon() {
    assert_eq!(status_icon(&ProviderStatus::Connected), "\u{2713}");
    assert_eq!(status_icon(&ProviderStatus::Disconnected), "\u{25cb}");
    assert_eq!(status_icon(&ProviderStatus::Error), "\u{2717}");
}

#[test]
fn test_provider_entry_has_models() {
    for provider in &sample_providers() {
        assert!(!provider.models.is_empty());
    }
}

#[test]
fn test_provider_has_kind() {
    for provider in &sample_providers() {
        match provider.kind {
            ProviderKind::Anthropic
            | ProviderKind::OpenAi
            | ProviderKind::Xai
            | ProviderKind::QwenProxy
            | ProviderKind::Azure
            | ProviderKind::Gemini
            | ProviderKind::Bedrock
            | ProviderKind::OpenRouter
            | ProviderKind::Mistral
            | ProviderKind::Groq
            | ProviderKind::Unconfigured => {}
        }
    }
}

#[test]
fn connect_flow_submits_key_for_provider() {
    let mut state = opened();
    state.selected = 1;
    let action = state.handle_key(key(KeyCode::Enter, KeyModifiers::none()));
    assert!(matches!(action, ProviderAction::Nothing));
    assert!(state.connect_dialog.open);
    for c in "sk-1".chars() {
        state.handle_key(key(KeyCode::Char(c), KeyModifiers::none()));
    }
    let action = state.handle_key(key(KeyCode::Enter, KeyModifiers::none()));
    match action {
        ProviderAction::ConnectProvider(kind, name, api_key) => {
            assert_eq!(kind, ProviderKind::OpenAi);
            assert_eq!(name, "OpenAI");
            assert_eq!(api_key, "sk-1");
        }
        other => panic!("unexpected {other:?}"),
    }
}

#[test]
fn typing_searches_and_slash_clears() {
    let mut state = opened();
    state.handle_key(key(KeyCode::Char('g'), KeyModifiers::none()));
    let names: Vec<&str> = state.filtered.iter().map(|&i| state.providers[i].name.as_str()).collect();
    assert_eq!(names, vec!["Gemini", "Groq"]);
    state.handle_key(key(KeyCode::Enter, KeyModifiers::none()));
    assert!(state.connect_dialog.open);
    let mut state = opened();
    state.handle_key(key(KeyCode::Char('g'), KeyModifiers::none()));
    state.handle_key(key(KeyCode::Char('/'), KeyModifiers::none()));
    assert!(state.search.is_empty());
    state.handle_key(key(KeyCode::Char('x'), KeyModifiers::none()));
    assert!(state.filtered.is_empty());
    state.handle_key(key(KeyCode::Backspace, KeyModifiers::none()));
    assert_eq!(state.filtered.len(), 4);
}

#[test]
fn provider_dialog_size_and_scroll() {
    assert_eq!(dialog_width(130), 80);
    assert_eq!(dialog_width(100), 72);
    assert_eq!(dialog_width(50), 56);
    assert_eq!(dialog_height(20), 14);
    assert_eq!(dialog_height(60), 24);
    let mut state = opened();
    state.selected = 9;
    state.scroll_offset = 0;
    assert_eq!(compute_scroll_offset(&state, 5), 5);
    state.selected = 2;
    state.scroll_offset = 4;
    assert_eq!(compute_scroll_offset(&state, 5), 2);
}
