use std::path::PathBuf;

use icode_cli::dialog_prompt_stash::{stash_dialog_view, PromptStashEntry, PromptStashState};
use icode_cli::dialog_question::{QuestionDef, QuestionPromptState, QuestionResponse};
use icode_cli::dialog_sessions::{sessions_dialog_view, SessionEntry, SessionsDialogState};
use icode_cli::dialog_timeline::{timeline_dialog_view, TimelineDialogState, TimelineEntry};
use icode_cli::dialog_view::ViewTone;
use icode_cli::dialog_workspaces::{workspace_dialog_view, WorkspaceDialogState, WorkspaceEntry};
use icode_cli::permission::{permission_stage_view, PermissionDialogState, PermissionMode, PermissionRequest};
use icode_cli::providers::{provider_dialog_view, ProviderDialogState, ProviderEntry, ProviderKind, ProviderStatus};

const NOW: u128 = 1_000_000_000_000;

#[test]
fn stash_view_lists_names_previews_and_ages() {
    let mut s = PromptStashState::new();
    s.set_entries(vec![PromptStashEntry {
        name: "greeting".to_string(),
        content: "hello there\nsecond line".to_string(),
        created_at: NOW - 500_000,
        updated_at: NOW - 120_000,
    }]);
    s.open();
    let v = stash_dialog_view(&s, 5, NOW);
    assert_eq!(v.title, " Prompt Stash ");
    assert_eq!(v.input, "Type to search...");
    assert_eq!(v.input_tone, ViewTone::Muted);
    assert_eq!(v.footer, " 1 prompt(s) ");
    assert!(v.empty.is_none());
    assert_eq!(v.rows.len(), 1);
    assert_eq!(v.rows[0].label, "greeting");
    assert_eq!(v.rows[0].detail, " - hello there ");
    assert_eq!(v.rows[0].trailing, "2m ago");
    assert!(v.rows[0].selected && !v.rows[0].warning);
    let empty = stash_dialog_view(&PromptStashState::new(), 5, NOW);
    assert_eq!(empty.empty.as_deref(), Some("No stashed prompts yet. Press Ctrl+N to create one."));
    assert!(empty.rows.is_empty());
}

#[test]
fn workspace_view_marks_the_selection() {
    let mut s = WorkspaceDialogState::new();
    s.open(vec![
        WorkspaceEntry { path: "/home/me/a".to_string(), last_active: NOW - 7_200_000, session_count: 3 },
        WorkspaceEntry { path: "/home/me/b".to_string(), last_active: 0, session_count: 0 },
    ]);
    let v = workspace_dialog_view(&s, 1, NOW);
    assert_eq!(v.title, " Workspaces ");
    assert_eq!(v.footer, " 2 workspace(s) ");
    assert_eq!(v.rows.len(), 1);
    assert_eq!(v.rows[0].label, "\u{25b6} /home/me/a");
    assert_eq!(v.rows[0].detail, " (3 sess) ");
    assert_eq!(v.rows[0].trailing, "2h ago");
    s.selected = 1;
    let v2 = workspace_dialog_view(&s, 1, NOW);
    assert_eq!(v2.scroll_offset, 1);
    assert_eq!(v2.rows[0].label, "\u{25b6} /home/me/b");
    assert_eq!(v2.rows[0].trailing, "never");
}

#[test]
fn sessions_view_groups_by_day() {
    let mut s = SessionsDialogState::new();
    let entry = |id: &str, title: &str, modified: u128| SessionEntry {
        id: id.to_string(),
        title: title.to_string(),
        path: PathBuf::from(format!("/s/{id}.json")),
        modified,
        message_count: 4,
        parent_id: None,
        branch_name: Some("main".to_string()),
        usage_summary: None,
    };
    s.set_sessions(vec![
        entry("s1", "Fix parser", NOW - 1_000),
        entry("s2", "New session - 1", NOW - 2_000),
        entry("s3", "Old work", NOW - 3 * 86_400_000),
    ]);
    s.open();
    let v = sessions_dialog_view(&s, 10, NOW);
    assert_eq!(v.rows.len(), 3);
    assert_eq!(v.rows[0].heading.as_deref(), Some("\u{2500}\u{2500} Today \u{2500}\u{2500}"));
    assert_eq!(v.rows[0].label, "Fix parser(s1) ");
    assert_eq!(v.rows[0].detail, " (4 msgs) on main ");
    assert!(v.rows[1].heading.is_none());
    assert_eq!(v.rows[1].label, "s2");
    assert_eq!(v.rows[2].heading.as_deref(), Some("\u{2500}\u{2500} 3 days ago \u{2500}\u{2500}"));
    assert_eq!(v.footer, " 3 session(s) ");
}

#[test]
fn timeline_view_numbers_entries() {
    let s = TimelineDialogState {
        open: true,
        entries: vec![
            TimelineEntry { idx: 0, role: "User".to_string(), agent: String::new(), preview: "hi".to_string(), tool_calls: 0, has_thinking: false },
            TimelineEntry { idx: 1, role: "Assistant".to_string(), agent: "build".to_string(), preview: String::new(), tool_calls: 2, has_thinking: true },
        ],
        selected: 0,
        scroll: 0,
    };
    let v = timeline_dialog_view(&s, 10);
    assert_eq!(v.title, " Timeline \u{2014} 2 message(s) ");
    assert_eq!(v.rows[0].label, "\u{25b6} #1  \u{1F464} hi");
    assert_eq!(v.rows[1].label, "  #2  \u{1F916} [build] \u{1F4AD} (empty)");
    assert_eq!(v.rows[1].detail, " \u{26A1}2");
}

#[test]
fn provider_view_shows_status_and_models() {
    let providers = vec![ProviderEntry {
        name: "Anthropic".to_string(),
        kind: ProviderKind::Anthropic,
        status: ProviderStatus::Connected,
        configured: true,
        models: vec!["a".to_string(), "b".to_string()],
    }];
    let mut s = ProviderDialogState::new(providers.clone());
    s.open(providers);
    let v = provider_dialog_view(&s, 5);
    assert_eq!(v.title, " Provider Connections ");
    assert_eq!(v.rows[0].label, "\u{2713} Anthropic");
    assert_eq!(v.rows[0].detail, " (configured) 2 models");
    assert_eq!(v.footer, " 1 provider(s) ");
}

#[test]
fn permission_stage_view_shows_the_request() {
    let mut s = PermissionDialogState::new();
    s.open(PermissionRequest {
        tool_name: "bash".to_string(),
        input: String::new(),
        current_mode: PermissionMode::ReadOnly,
        required_mode: PermissionMode::DangerFullAccess,
        reason: Some("x".repeat(70)),
    });
    let req = s.request.clone().unwrap();
    let v = permission_stage_view(&s, &req);
    assert_eq!(v.action, "Shell wants to run a shell command");
    assert_eq!(v.escalation, Some(("read-only".to_string(), "danger-full-access".to_string())));
    assert_eq!(v.reason, Some(format!("{}...", "x".repeat(57))));
    assert_eq!(v.buttons[0], ("Allow once".to_string(), true));
    assert_eq!(v.buttons[2], ("Allow always".to_string(), false));
}

#[test]
fn cancelled_answers_go_out_empty() {
    let (tx, rx) = std::sync::mpsc::channel();
    let mut q = QuestionPromptState::new();
    q.open(vec![QuestionDef::text("Name?", "name", "p")], "agent".to_string(), String::new(), Some(tx));
    let r = QuestionResponse { answer: "[cancelled]".to_string(), cancelled: true };
    assert_eq!(q.outgoing_answer(&r).as_deref(), Some(""));
    let r2 = QuestionResponse { answer: "Bob".to_string(), cancelled: false };
    assert_eq!(q.outgoing_answer(&r2).as_deref(), Some("Bob"));
    let done = q.submit();
    assert!(done.cancelled);
    assert!(q.answer_tx.is_none());
    let d = q.take_pending_answer().unwrap();
    assert_eq!(d.text, "");
    assert!(q.pending_answer.is_none());
    d.tx.send(d.text).unwrap();
    assert_eq!(rx.recv().unwrap(), "");
}

#[test]
fn submitted_answers_wait_for_their_channel() {
    let (tx, rx) = std::sync::mpsc::channel();
    let mut q = QuestionPromptState::new();
    q.open(vec![QuestionDef::text("Name?", "name", "p")], "agent".to_string(), String::new(), Some(tx));
    q.answers[0] = vec!["Bob".to_string()];
    let done = q.submit();
    assert_eq!(done.answer, "Bob");
    assert!(!done.cancelled);
    assert!(!q.open);
    let d = q.take_pending_answer().unwrap();
    assert_eq!(d.text, "Bob");
    d.tx.send(d.text).unwrap();
    assert_eq!(rx.recv().unwrap(), "Bob");
    assert!(q.take_pending_answer().is_none());
}

#[test]
fn dismissing_hands_over_the_empty_answer() {
    let (tx, rx) = std::sync::mpsc::channel();
    let mut q = QuestionPromptState::new();
    q.open(vec![QuestionDef::text("Name?", "name", "p")], "agent".to_string(), String::new(), Some(tx));
    let r = q.handle_key(icode_cli::keys::KeyCode::Esc).unwrap();
    assert!(r.cancelled);
    let d = q.take_pending_answer().unwrap();
    d.tx.send(d.text).unwrap();
    assert_eq!(rx.recv().unwrap(), "");
}
