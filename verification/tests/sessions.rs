use std::path::PathBuf;

use icode_cli::dialog_sessions::{SessionAction, SessionEntry, SessionsDialogState};
use icode_cli::keys::{KeyCode, KeyEvent, KeyModifiers};

fn key(code: KeyCode) -> KeyEvent {
    KeyEvent::new(code, KeyModifiers::none())
}

fn session(id: &str, title: &str, modified: u128, branch: Option<&str>) -> SessionEntry {
    SessionEntry {
        id: id.to_string(),
        title: title.to_string(),
        path: PathBuf::from(format!("/sessions/{id}.json")),
        modified,
        message_count: 2,
        parent_id: None,
        branch_name: branch.map(str::to_string),
        usage_summary: None,
    }
}

fn dialog() -> SessionsDialogState {
    let mut d = SessionsDialogState::new();
    d.set_sessions(vec![
        session("a1", "Refactor parser", 10, None),
        session("b2", "Fix login", 30, Some("hotfix")),
        session("c3", "Write docs", 30, None),
    ]);
    d.open();
    d
}

fn ids(d: &SessionsDialogState) -> Vec<String> {
    d.filtered.iter().map(|s| s.id.clone()).collect()
}

#[test]
fn sessions_are_listed_newest_first() {
    let d = dialog();
    assert_eq!(ids(&d), vec!["c3", "b2", "a1"]);
    assert_eq!(d.selected, 0);
}

#[test]
fn search_matches_id_title_and_branch() {
    let mut d = dialog();
    d.handle_key(key(KeyCode::Char('H')));
    d.handle_key(key(KeyCode::Char('o')));
    assert_eq!(ids(&d), vec!["b2"]);
    d.handle_key(key(KeyCode::Backspace));
    d.handle_key(key(KeyCode::Backspace));
    assert_eq!(ids(&d), vec!["c3", "b2", "a1"]);
}

#[test]
fn enter_switches_to_the_selected_session() {
    let mut d = dialog();
    d.handle_key(key(KeyCode::Down));
    match d.handle_key(key(KeyCode::Enter)) {
        SessionAction::Switch(p) => assert_eq!(p, PathBuf::from("/sessions/b2.json")),
        other => panic!("unexpected {other:?}"),
    }
    assert!(!d.open);
}

#[test]
fn deleting_takes_a_second_key() {
    let mut d = dialog();
    d.handle_key(key(KeyCode::End));
    assert!(matches!(d.handle_key(key(KeyCode::Delete)), SessionAction::Nothing));
    assert_eq!(d.delete_confirm.as_deref(), Some("a1"));
    match d.handle_key(key(KeyCode::Delete)) {
        SessionAction::Delete(p) => assert_eq!(p, PathBuf::from("/sessions/a1.json")),
        other => panic!("unexpected {other:?}"),
    }
    assert!(d.delete_confirm.is_none());
}

#[test]
fn moving_forgets_a_pending_deletion() {
    let mut d = dialog();
    d.handle_key(key(KeyCode::Delete));
    assert!(d.delete_confirm.is_some());
    d.handle_key(key(KeyCode::Down));
    assert!(d.delete_confirm.is_none());
    assert!(matches!(d.handle_key(key(KeyCode::Enter)), SessionAction::Switch(_)));
}
