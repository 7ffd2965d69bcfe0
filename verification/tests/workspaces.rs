use icode_cli::dialog_workspaces::{
    dedup_locations, fuzzy_match, latest_millis, merge_workspaces, truncate_path, WorkspaceAction, WorkspaceDialogMode,
    WorkspaceDialogState, WorkspaceEntry,
};
use icode_cli::keys::{KeyCode, KeyEvent, KeyModifiers};
use icode_cli::listing::{format_relative_time, format_relative_time_at};

fn key(code: KeyCode, modifiers: KeyModifiers) -> KeyEvent {
    KeyEvent::new(code, modifiers)
}

fn ws(path: &str, last_active: u128, session_count: usize) -> WorkspaceEntry {
    WorkspaceEntry { path: path.to_string(), last_active, session_count }
}

fn found() -> Vec<WorkspaceEntry> {
    vec![ws("/home/user/icode", 200, 2), ws("/home/user/other", 100, 1), ws("/srv/app", 300, 4)]
}

#[test]
fn dialog_workspaces_test_new_state() {
    let state = WorkspaceDialogState::new();
    assert!(!state.open);
    assert!(state.workspaces.is_empty());
    assert_eq!(state.selected, 0);
}

#[test]
fn dialog_workspaces_test_open_close() {
    let mut state = WorkspaceDialogState::new();
    state.open(Vec::new());
    assert!(state.open);
    state.close();
    assert!(!state.open);
}

#[test]
fn test_scan_finds_current_workspace() {
    let mut state = WorkspaceDialogState::new();
    state.scan_workspaces(vec![ws("/cwd", 5, 1)]);
    assert!(!state.workspaces.is_empty());
    assert!(state.workspaces[0].session_count >= 1);
}

#[test]
fn dialog_workspaces_test_esc_closes() {
    let mut state = WorkspaceDialogState::new();
    state.open(Vec::new());
    let action = state.handle_key(key(KeyCode::Esc, KeyModifiers::none()));
    assert!(matches!(action, WorkspaceAction::Close));
    assert!(!state.open);
}

#[test]
fn dialog_workspaces_test_ctrl_c_closes() {
    let mut state = WorkspaceDialogState::new();
    state.open(Vec::new());
    let action = state.handle_key(key(KeyCode::Char('c'), KeyModifiers::control()));
    assert!(matches!(action, WorkspaceAction::Close));
}

#[test]
fn test_enter_switches() {
    let mut state = WorkspaceDialogState::new();
    state.open(found());
    assert!(!state.filtered.is_empty());
    let action = state.handle_key(key(KeyCode::Enter, KeyModifiers::none()));
    match action {
        WorkspaceAction::Switch(path) => assert_eq!(path, "/srv/app"),
        other => panic!("Expected Switch action, got {other:?}"),
    }
    assert!(!state.open);
}

#[test]
fn dialog_workspaces_test_navigation() {
    let mut state = WorkspaceDialogState::new();
    state.open(found());
    assert!(state.filtered.len() > 1);
    state.handle_key(key(KeyCode::Down, KeyModifiers::none()));
    assert_eq!(state.selected, 1);
    state.handle_key(key(KeyCode::Up, KeyModifiers::none()));
    assert_eq!(state.selected, 0);
}

#[test]
fn dialog_workspaces_test_search_filters() {
    let mut state = WorkspaceDialogState::new();
    state.open(found());
    let initial = state.filtered.len();
    state.search = "nonexistent_workspace_xyz".to_string();
    state.selected = 0;
    state.apply_filter();
    assert!(state.filtered.len() <= initial);
    assert!(state.filtered.is_empty());
}

#[test]
fn test_format_relative_time() {
    let now = std::time::SystemTime::now().duration_since(std::time::UNIX_EPOCH).unwrap().as_millis();
    let recent = now - 30_000;
    assert_eq!(format_relative_time(recent), "just now");
    let hour_ago = now - 3_600_000;
    assert!(format_relative_time(hour_ago).contains("h ago"));
}

#[test]
fn test_truncate_path() {
    let path = "/very/long/path/that/exceeds/limit/workspace";
    let result = truncate_path(path, 20);
    assert!(result.starts_with("..."));
    assert!(result.ends_with("workspace"));
    assert!(result.len() < path.len());
}

#[test]
fn test_truncate_path_short() {
    assert_eq!(truncate_path("/short", 20), "/short");
}

#[test]
fn dialog_workspaces_test_page_navigation() {
    let mut state = WorkspaceDialogState::new();
    state.open(Vec::new());
    state.handle_key(key(KeyCode::PageDown, KeyModifiers::none()));
    assert_eq!(state.selected, 10.min(state.filtered.len().saturating_sub(1)));
}

#[test]
fn test_fuzzy_match_basic() {
    assert!(fuzzy_match("icode", "/home/user/icode/rust"));
    assert!(fuzzy_match("rust", "/home/user/icode/rust"));
    assert!(fuzzy_match("hm", "/home/user/icode"));
    assert!(!fuzzy_match("xyz", "/home/user/icode"));
}

#[test]
fn test_fuzzy_match_empty() {
    assert!(fuzzy_match("", "/any/path"));
    assert!(!fuzzy_match("a", ""));
}

#[test]
fn test_delete_opens_confirmation() {
    let mut state = WorkspaceDialogState::new();
    state.open(found());
    let action = state.handle_key(key(KeyCode::Delete, KeyModifiers::none()));
    assert!(matches!(action, WorkspaceAction::Nothing));
    assert!(matches!(state.mode, WorkspaceDialogMode::ConfirmDelete(_)));
}

#[test]
fn test_n_opens_create_mode() {
    let mut state = WorkspaceDialogState::new();
    state.open(Vec::new());
    let action = state.handle_key(key(KeyCode::Char('n'), KeyModifiers::none()));
    assert!(matches!(action, WorkspaceAction::Nothing));
    assert!(matches!(state.mode, WorkspaceDialogMode::EnterCreatePath));
}

#[test]
fn test_create_path_entry() {
    let mut state = WorkspaceDialogState::new();
    state.open(Vec::new());
    state.handle_key(key(KeyCode::Char('n'), KeyModifiers::none()));
    for c in "/test".chars() {
        state.handle_key(key(KeyCode::Char(c), KeyModifiers::none()));
    }
    let action = state.handle_key(key(KeyCode::Enter, KeyModifiers::none()));
    match action {
        WorkspaceAction::Create(path) => assert_eq!(path, "/test"),
        other => panic!("Expected Create action, got {other:?}"),
    }
}

#[test]
fn test_esc_cancels_delete_confirmation() {
    let mut state = WorkspaceDialogState::new();
    state.open(found());
    state.handle_key(key(KeyCode::Delete, KeyModifiers::none()));
    assert!(matches!(state.mode, WorkspaceDialogMode::ConfirmDelete(_)));
    let action = state.handle_key(key(KeyCode::Esc, KeyModifiers::none()));
    assert!(matches!(action, WorkspaceAction::Nothing));
    assert!(matches!(state.mode, WorkspaceDialogMode::Listing));
}

#[test]
fn test_esc_cancels_create_mode() {
    let mut state = WorkspaceDialogState::new();
    state.open(Vec::new());
    state.handle_key(key(KeyCode::Char('n'), KeyModifiers::none()));
    let action = state.handle_key(key(KeyCode::Esc, KeyModifiers::none()));
    assert!(matches!(action, WorkspaceAction::Nothing));
    assert!(matches!(state.mode, WorkspaceDialogMode::Listing));
    assert!(state.create_input.is_empty());
}

#[test]
fn workspaces_merge_and_sort_newest_first() {
    let merged = merge_workspaces(&vec![ws("/a", 10, 1), ws("/b", 50, 2), ws("/a", 30, 3)]);
    let paths: Vec<&str> = merged.iter().map(|w| w.path.as_str()).collect();
    assert_eq!(paths, vec!["/b", "/a"]);
    assert_eq!(merged[1].session_count, 4);
    assert_eq!(merged[1].last_active, 30);
}

#[test]
fn relative_time_at_fixed_times() {
    assert_eq!(format_relative_time_at(0, 59_000), "just now");
    assert_eq!(format_relative_time_at(0, 120_000), "2m ago");
    assert_eq!(format_relative_time_at(0, 7_200_000), "2h ago");
    assert_eq!(format_relative_time_at(0, 3 * 86_400_000), "3d ago");
    assert_eq!(format_relative_time_at(10, 5), "just now");
}

#[test]
fn truncated_path_cuts_at_character_boundaries() {
    assert_eq!(truncate_path("/abcdefgh", 3), "...");
    assert_eq!(truncate_path("/abcdefgh", 6), "...cdefgh");
    assert_eq!(truncate_path("/ééééé", 6), "...éééé");
}

#[test]
fn latest_and_dedup_helpers() {
    assert_eq!(latest_millis(&vec![]), 0);
    assert_eq!(latest_millis(&vec![5, 9, 2]), 9);
    let locs = vec!["/a".to_string(), "/a".to_string(), "/b".to_string(), "/a".to_string()];
    assert_eq!(dedup_locations(&locs), vec!["/a".to_string(), "/b".to_string(), "/a".to_string()]);
}
