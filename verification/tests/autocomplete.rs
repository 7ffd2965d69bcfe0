use icode_cli::autocomplete::{
    command_help_text, fuzzy_match_single, AutocompleteEntry, AutocompleteMode, AutocompleteState, EntryKind,
};
use icode_cli::frecency::FrecencyStore;

fn temp_path() -> std::path::PathBuf {
    std::path::PathBuf::from("icode-autocomplete-test-unused.json")
}

fn make_frecency_store() -> FrecencyStore {
    let mut store = FrecencyStore::new(temp_path());
    for _ in 0..5 {
        store.record("/help");
    }
    store.record("/status");
    store.record("/clear");
    store
}

fn no_files() -> Vec<String> {
    Vec::new()
}

fn two_commands() -> Vec<AutocompleteEntry> {
    vec![
        AutocompleteEntry { title: "/help".into(), subtitle: String::new(), kind: EntryKind::Command },
        AutocompleteEntry { title: "/status".into(), subtitle: String::new(), kind: EntryKind::Command },
    ]
}

#[test]
fn fuzzy_match_single_basic() {
    assert!(fuzzy_match_single("hel", "/help"));
    assert!(fuzzy_match_single("hp", "/help"));
    assert!(!fuzzy_match_single("xyz", "/help"));
    assert!(fuzzy_match_single("", "/help"));
    assert!(fuzzy_match_single("/help", "/help"));
}

#[test]
fn fuzzy_match_single_case_insensitive() {
    assert!(fuzzy_match_single("HELP", "/help"));
    assert!(fuzzy_match_single("HelP", "/help"));
}

#[test]
fn fuzzy_match_subsequence_matching() {
    let mut state = AutocompleteState::new();
    state.open(AutocompleteMode::Slash, 0);
    state.rebuild_entries("/h", &no_files(), None);
    assert!(!state.entries.is_empty());
    assert!(state.entries.iter().all(|e| fuzzy_match_single("/h", &e.title)));
}

#[test]
fn frecency_sorts_when_query_empty() {
    let frecency = make_frecency_store();
    let mut state = AutocompleteState::new();
    state.open(AutocompleteMode::Slash, 0);
    state.rebuild_entries("", &no_files(), Some(&frecency));
    assert!(!state.entries.is_empty());
    assert_eq!(state.entries[0].title, "/help");
}

#[test]
fn frecency_no_sort_when_query_present() {
    let frecency = make_frecency_store();
    let mut state = AutocompleteState::new();
    state.open(AutocompleteMode::Slash, 0);
    state.rebuild_entries("/stat", &no_files(), Some(&frecency));
    assert_eq!(state.entries.len(), 1);
    assert_eq!(state.entries[0].title, "/status");
}

#[test]
fn anchor_position_set_correctly() {
    let mut state = AutocompleteState::new();
    state.set_anchor(5, 20, 50);
    assert_eq!(state.anchor_x, 5);
    assert_eq!(state.anchor_y, 20);
    assert_eq!(state.anchor_width, 50);
}

#[test]
fn default_anchor_is_zero() {
    let state = AutocompleteState::new();
    assert_eq!(state.anchor_x, 0);
    assert_eq!(state.anchor_y, 0);
    assert_eq!(state.anchor_width, 40);
}

#[test]
fn default_max_items_is_ten() {
    let state = AutocompleteState::new();
    assert_eq!(state.max_items, 10);
}

#[test]
fn cycle_mode_sequence() {
    let mut state = AutocompleteState::new();
    assert_eq!(state.mode, AutocompleteMode::Slash);
    state.cycle_mode();
    assert_eq!(state.mode, AutocompleteMode::File);
    state.cycle_mode();
    assert_eq!(state.mode, AutocompleteMode::Agent);
    state.cycle_mode();
    assert_eq!(state.mode, AutocompleteMode::Resource);
    state.cycle_mode();
    assert_eq!(state.mode, AutocompleteMode::Slash);
}

#[test]
fn agent_mode_lists_known_agents() {
    let mut state = AutocompleteState::new();
    state.open(AutocompleteMode::Agent, 0);
    state.rebuild_entries("@", &no_files(), None);
    assert_eq!(state.entries.len(), 5);
    assert!(state.entries.iter().all(|e| e.kind == EntryKind::Agent));
    let titles: Vec<&str> = state.entries.iter().map(|e| e.title.as_str()).collect();
    assert!(titles.contains(&"build"));
    assert!(titles.contains(&"plan"));
    assert!(titles.contains(&"debug"));
    assert!(titles.contains(&"review"));
    assert!(titles.contains(&"test"));
}

#[test]
fn agent_mode_fuzzy_filters() {
    let mut state = AutocompleteState::new();
    state.open(AutocompleteMode::Agent, 0);
    state.rebuild_entries("@bui", &no_files(), None);
    assert_eq!(state.entries.len(), 1);
    assert_eq!(state.entries[0].title, "build");
}

#[test]
fn agent_mode_has_help_text() {
    let mut state = AutocompleteState::new();
    state.open(AutocompleteMode::Agent, 0);
    state.rebuild_entries("@", &no_files(), None);
    for entry in &state.entries {
        assert!(!entry.subtitle.is_empty());
    }
}

#[test]
fn resource_mode_is_empty_stub() {
    let mut state = AutocompleteState::new();
    state.open(AutocompleteMode::Resource, 0);
    state.rebuild_entries("@", &no_files(), None);
    assert!(state.entries.is_empty());
}

#[test]
fn mouse_move_updates_hover_and_idx() {
    let mut state = AutocompleteState::new();
    state.open(AutocompleteMode::Slash, 0);
    state.rebuild_entries("/", &no_files(), None);
    state.on_mouse_move(5, 5);
    assert_eq!(state.mouse_hover, Some(0));
    assert_eq!(state.idx, 0);
    state.on_mouse_move(6, 5);
    assert_eq!(state.mouse_hover, Some(1));
    assert_eq!(state.idx, 1);
}

#[test]
fn mouse_move_outside_popup_clears_hover() {
    let mut state = AutocompleteState::new();
    state.open(AutocompleteMode::Slash, 0);
    state.rebuild_entries("/", &no_files(), None);
    state.on_mouse_move(4, 5);
    assert_eq!(state.mouse_hover, None);
}

#[test]
fn mouse_click_returns_selected_text() {
    let mut state = AutocompleteState::new();
    state.open(AutocompleteMode::Slash, 0);
    state.rebuild_entries("/", &no_files(), None);
    state.on_mouse_move(5, 5);
    let clicked = state.on_click();
    assert!(clicked.is_some());
    assert_eq!(clicked.unwrap(), state.entries[0].title);
}

#[test]
fn record_selection_updates_frecency() {
    let mut frecency = make_frecency_store();
    let initial = frecency.usage_entry("/status").frequency;
    let mut state = AutocompleteState::new();
    state.record_selection("/status", &mut frecency);
    let after = frecency.usage_entry("/status").frequency;
    assert!(after > initial);
}

#[test]
fn new_state_is_closed() {
    let state = AutocompleteState::new();
    assert!(!state.open);
    assert_eq!(state.idx, 0);
    assert_eq!(state.scroll, 0);
    assert_eq!(state.trigger_pos, 0);
}

#[test]
fn open_sets_mode_and_resets() {
    let mut state = AutocompleteState::new();
    state.open(AutocompleteMode::Slash, 0);
    assert!(state.open);
    assert_eq!(state.mode, AutocompleteMode::Slash);
    assert_eq!(state.trigger_pos, 0);
    assert_eq!(state.idx, 0);
    assert_eq!(state.scroll, 0);
    assert!(state.entries.is_empty());
}

#[test]
fn close_sets_open_false() {
    let mut state = AutocompleteState::new();
    state.open(AutocompleteMode::Slash, 0);
    state.close();
    assert!(!state.open);
}

#[test]
fn cursor_up_decrements_idx() {
    let mut state = AutocompleteState::new();
    state.entries = two_commands();
    state.idx = 1;
    state.cursor_up();
    assert_eq!(state.idx, 0);
    state.cursor_up();
    assert_eq!(state.idx, 0);
}

#[test]
fn cursor_down_increments_idx() {
    let mut state = AutocompleteState::new();
    state.entries = two_commands();
    state.cursor_down();
    assert_eq!(state.idx, 1);
    state.cursor_down();
    assert_eq!(state.idx, 1);
}

#[test]
fn on_char_insert_triggers_slash() {
    let mut state = AutocompleteState::new();
    state.on_char_insert('/', 1, "/");
    assert!(state.open);
    assert_eq!(state.mode, AutocompleteMode::Slash);
    assert_eq!(state.trigger_pos, 0);
}

#[test]
fn on_char_insert_triggers_file_at_start() {
    let mut state = AutocompleteState::new();
    state.on_char_insert('@', 1, "@");
    assert!(state.open);
    assert_eq!(state.mode, AutocompleteMode::File);
    assert_eq!(state.trigger_pos, 0);
}

#[test]
fn on_char_insert_triggers_file_after_whitespace() {
    let mut state = AutocompleteState::new();
    state.on_char_insert('@', 5, "foo @");
    assert!(state.open);
    assert_eq!(state.mode, AutocompleteMode::File);
    assert_eq!(state.trigger_pos, 4);
}

#[test]
fn on_char_insert_space_closes() {
    let mut state = AutocompleteState::new();
    state.open(AutocompleteMode::Slash, 0);
    state.on_char_insert(' ', 2, "/h ");
    assert!(!state.open);
}

#[test]
fn rebuild_entries_filters_slash_commands() {
    let mut state = AutocompleteState::new();
    state.open(AutocompleteMode::Slash, 0);
    state.rebuild_entries_legacy("/h", &no_files());
    assert!(!state.entries.is_empty());
    assert!(state.entries.iter().all(|e| fuzzy_match_single("/h", &e.title)));
    assert!(state.entries.iter().all(|e| e.kind == EntryKind::Command));
}

#[test]
fn command_help_text_returns_descriptions() {
    assert!(!command_help_text("/help").is_empty());
    assert!(!command_help_text("/model").is_empty());
    assert_eq!(command_help_text("/unknown"), "");
}

#[test]
fn empty_entries_when_filter_active() {
    let mut state = AutocompleteState::new();
    state.open(AutocompleteMode::Agent, 0);
    state.rebuild_entries("@xyz", &no_files(), None);
    assert!(state.entries.is_empty());
}

#[test]
fn file_mode_lists_matching_files() {
    let mut state = AutocompleteState::new();
    state.open(AutocompleteMode::File, 0);
    let files = vec!["src/main.rs".to_string(), "README.md".to_string(), "src/lib.rs".to_string()];
    state.rebuild_entries("@lib", &files, None);
    assert!(state.entries.iter().any(|e| e.title.contains("lib.rs")));
    assert!(state.entries.iter().all(|e| e.kind == EntryKind::File));
}
