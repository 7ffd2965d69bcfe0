use icode_cli::command_palette::{
    compute_scroll_offset, CommandAction, CommandEntry, CommandPaletteState, MAX_VISIBLE_ENTRIES,
};
use icode_cli::frecency::FrecencyStore;

fn make_entry(title: &str, description: &str, value: &str, category: &str, suggested: bool) -> CommandEntry {
    CommandEntry {
        title: title.to_string(),
        description: description.to_string(),
        value: value.to_string(),
        category: category.to_string(),
        shortcut: String::new(),
        suggested,
        action: CommandAction::ShowHelp,
    }
}

#[test]
fn test_search_text_includes_description() {
    let entry = make_entry("Switch model", "Change the current AI model", "model.list", "Agent", true);
    let text = entry.search_text();
    assert!(text.contains("switch"));
    assert!(text.contains("model"));
    assert!(text.contains("change"));
    assert!(text.contains("current"));
    assert!(text.contains("agent"));
}

#[test]
fn test_fuzzy_search_matches_description() {
    let mut state = CommandPaletteState::new();
    state.search = "change".to_string();
    state.rebuild_filtered();
    assert!(
        state.filtered.iter().any(|&idx| state.entries[idx].value == "model.list"),
        "should match 'Switch model' via description"
    );
}

#[test]
fn test_fuzzy_search_matches_shortcut() {
    let mut state = CommandPaletteState::new();
    state.search = "ctrl+m".to_string();
    state.rebuild_filtered();
    assert!(
        state.filtered.iter().any(|&idx| state.entries[idx].value == "model.list"),
        "should match 'Switch model' via shortcut"
    );
}

#[test]
fn test_max_20_visible_entries() {
    let mut state = CommandPaletteState::new();
    for i in 0..30 {
        state.entries.push(make_entry(
            &format!("Extra {i}"),
            &format!("Extra description {i}"),
            &format!("extra.{i}"),
            "Agent",
            false,
        ));
    }
    state.rebuild_filtered();
    assert!(state.filtered.len() > MAX_VISIBLE_ENTRIES);
    let display_count = state.filtered.len().min(MAX_VISIBLE_ENTRIES);
    assert_eq!(display_count, MAX_VISIBLE_ENTRIES);
}

#[test]
fn test_frecency_sorting_when_no_query() {
    let mut store = FrecencyStore::new(std::path::PathBuf::from("/tmp/test-frecency-cmd-palette.json"));
    for _ in 0..10 {
        store.record("session.list");
    }
    for _ in 0..2 {
        store.record("model.list");
    }
    store.record("theme.toggle");

    let mut state = CommandPaletteState::with_frecency(store);
    state.open();
    let pos_of = |value: &str| state.filtered.iter().position(|&i| state.entries[i].value == value);
    let session_pos = pos_of("session.list").unwrap();
    let model_pos = pos_of("model.list").unwrap();
    assert!(session_pos < model_pos, "session.list ({session_pos}) should come before model.list ({model_pos})");
}

#[test]
fn test_all_entries_have_descriptions() {
    let state = CommandPaletteState::new();
    for entry in &state.entries {
        assert!(!entry.description.is_empty(), "Entry '{}' has no description", entry.title);
    }
}

#[test]
fn test_command_entry_count() {
    let state = CommandPaletteState::new();
    assert_eq!(state.entries.len(), 26, "should have exactly 26 command entries");
}

#[test]
fn test_cursor_stays_within_bounds_after_filter() {
    let mut state = CommandPaletteState::new();
    state.open();
    for _ in 0..1000 {
        state.cursor_down();
    }
    assert!(state.cursor < state.filtered.len());
}

#[test]
fn test_confirm_sets_selected_value() {
    let mut state = CommandPaletteState::new();
    state.open();
    state.confirm();
    assert!(state.selected.is_some());
    assert!(!state.open);
}

#[test]
fn typing_filters_and_backspace_restores() {
    let mut state = CommandPaletteState::new();
    state.open();
    let all = state.filtered.len();
    for c in "zzzzqq".chars() {
        state.type_char(c);
    }
    assert!(state.filtered.is_empty());
    for _ in 0..6 {
        state.backspace();
    }
    assert_eq!(state.filtered.len(), all);
}

#[test]
fn palette_scroll_keeps_cursor_centred() {
    let mut state = CommandPaletteState::new();
    state.cursor = 3;
    assert_eq!(compute_scroll_offset(&state, 10), 0);
    state.cursor = 12;
    assert_eq!(compute_scroll_offset(&state, 10), 7);
}
