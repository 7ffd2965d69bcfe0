use icode_cli::dialog_prompt_stash::{truncate, PromptStashEntry, PromptStashState, StashAction, StashMode};
use icode_cli::keys::{KeyCode, KeyEvent, KeyModifiers};

fn key(code: KeyCode) -> KeyEvent {
    KeyEvent::new(code, KeyModifiers::none())
}

#[test]
fn dialog_prompt_stash_test_new_state() {
    let state = PromptStashState::new();
    assert!(!state.open);
    assert!(state.entries.is_empty());
    assert!(state.filtered.is_empty());
    assert_eq!(state.selected, 0);
    assert_eq!(state.mode, StashMode::Browsing);
}

#[test]
fn dialog_prompt_stash_test_open_close() {
    let mut state = PromptStashState::new();
    state.open();
    assert!(state.open);
    state.close();
    assert!(!state.open);
}

#[test]
fn test_save_and_load() {
    let mut state = PromptStashState::new();
    state.save_new("test_prompt", "Hello, this is a test prompt content");
    assert_eq!(state.entries.len(), 1);
    assert_eq!(state.entries[0].name, "test_prompt");
    assert_eq!(state.entries[0].content, "Hello, this is a test prompt content");
}

#[test]
fn test_delete_entry() {
    let mut state = PromptStashState::new();
    state.save_new("to_delete", "Content to delete");
    assert_eq!(state.entries.len(), 1);
    state.delete_entry(0);
    assert_eq!(state.entries.len(), 0);
}

#[test]
fn test_filter_by_name() {
    let mut state = PromptStashState::new();
    state.save_new("hello_prompt", "Hello world");
    state.save_new("goodbye_prompt", "Goodbye world");
    assert_eq!(state.entries.len(), 2);
    state.search = "hello".to_string();
    state.apply_filter();
    assert_eq!(state.filtered.len(), 1);
    assert_eq!(state.filtered[0].name, "hello_prompt");
}

#[test]
fn test_filter_by_content() {
    let mut state = PromptStashState::new();
    state.save_new("prompt_a", "Contains secret API key");
    state.save_new("prompt_b", "Contains regular text");
    state.search = "secret".to_string();
    state.apply_filter();
    assert_eq!(state.filtered.len(), 1);
    assert_eq!(state.filtered[0].name, "prompt_a");
}

#[test]
fn test_update_existing_entry() {
    let mut state = PromptStashState::new();
    state.save_new("my_prompt", "Original content");
    state.save_new("my_prompt", "Updated content");
    assert_eq!(state.entries.len(), 1);
    assert_eq!(state.entries[0].content, "Updated content");
}

#[test]
fn dialog_prompt_stash_test_handle_key_esc_closes() {
    let mut state = PromptStashState::new();
    state.open();
    let action = state.handle_key(key(KeyCode::Esc));
    assert!(matches!(action, StashAction::Close));
    assert!(!state.open);
}

#[test]
fn test_handle_key_enter_selects() {
    let mut state = PromptStashState::new();
    state.save_new("test", "Test content");
    state.open();
    let action = state.handle_key(key(KeyCode::Enter));
    match action {
        StashAction::Select(content) => assert_eq!(content, "Test content"),
        other => panic!("Expected Select action, got {other:?}"),
    }
}

#[test]
fn test_handle_key_navigation() {
    let mut state = PromptStashState::new();
    state.save_new("a", "Content A");
    state.save_new("b", "Content B");
    state.save_new("c", "Content C");
    state.open();
    assert_eq!(state.selected, 0);
    state.handle_key(key(KeyCode::Down));
    assert_eq!(state.selected, 1);
    state.handle_key(key(KeyCode::Down));
    assert_eq!(state.selected, 2);
    state.handle_key(key(KeyCode::Up));
    assert_eq!(state.selected, 1);
}

#[test]
fn test_truncate_ascii() {
    assert_eq!(truncate("hello world", 8), "hello...");
    assert_eq!(truncate("hi", 10), "hi");
    assert_eq!(truncate("abcdefg", 3), "...");
}

#[test]
fn test_truncate_utf8_safe() {
    let japanese = "日本語テスト";
    let result = truncate(japanese, 10);
    assert!(result.ends_with("..."));
    assert!(result.len() <= 13);
    assert!(result.is_char_boundary(result.len()));
}

#[test]
fn loaded_entries_are_listed_newest_first() {
    let mut state = PromptStashState::new();
    let entry = |name: &str, updated: u128| PromptStashEntry {
        name: name.to_string(),
        content: format!("{name} text"),
        created_at: 1,
        updated_at: updated,
    };
    state.set_entries(vec![entry("old", 10), entry("new", 30), entry("mid", 20), entry("mid2", 20)]);
    let names: Vec<&str> = state.entries.iter().map(|e| e.name.as_str()).collect();
    assert_eq!(names, vec!["new", "mid", "mid2", "old"]);
}

#[test]
fn saving_at_a_time_stamps_the_entry() {
    let mut state = PromptStashState::new();
    state.save_new_at("p", "one", 100);
    state.save_new_at("p", "two", 200);
    assert_eq!(state.entries[0].created_at, 100);
    assert_eq!(state.entries[0].updated_at, 200);
    assert_eq!(state.entries[0].content, "two");
}
