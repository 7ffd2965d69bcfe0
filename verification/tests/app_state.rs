use icode_cli::app_state::{format_elapsed, AppState};
use icode_cli::messages::{AppMode, MessagePart, MessageRole, ToastKind, ToolStatus};

fn text_parts(parts: &[MessagePart]) -> Vec<String> {
    parts
        .iter()
        .map(|p| match p {
            MessagePart::Text { content } => format!("text:{content}"),
            MessagePart::Thinking { content } => format!("thinking:{content}"),
            MessagePart::ToolCall { name, status, output, expanded, .. } => {
                format!("call:{name}:{status:?}:{output:?}:{expanded}")
            }
        })
        .collect()
}

#[test]
fn repeated_prompt_is_added_once() {
    let mut app = AppState::new();
    app.add_user_message("hello".to_string());
    app.add_user_message("hello".to_string());
    assert_eq!(app.messages.len(), 1);
    assert_eq!(app.messages[0].full_text(), "hello");
    assert_eq!(app.messages[0].agent, "build");
    app.add_user_message("again".to_string());
    assert_eq!(app.messages.len(), 2);
    assert_eq!(app.scroll_offset, usize::MAX);
}

#[test]
fn streaming_reply_collects_text_and_thinking() {
    let mut app = AppState::new();
    app.add_user_message("q".to_string());
    app.start_assistant_stream("plan");
    assert!(app.is_streaming);
    app.start_assistant_stream("other");
    assert_eq!(app.messages.len(), 2);
    app.append_to_stream("Hel");
    app.append_to_stream("lo");
    app.start_thinking();
    assert!(app.is_thinking);
    app.append_thinking("hmm");
    app.append_to_stream("!");
    app.finish_stream();
    let reply = &app.messages[1];
    assert_eq!(reply.agent, "plan");
    assert!(matches!(reply.role, MessageRole::Assistant));
    assert!(!reply.is_streaming);
    assert!(!app.is_streaming && !app.is_thinking);
    assert_eq!(text_parts(&reply.parts), vec!["text:Hello", "thinking:hmm", "text:!"]);
    assert_eq!(reply.full_text(), "Hello!");
    assert_eq!(reply.thinking_text(), "hmm");
    app.append_to_stream("late");
    assert_eq!(app.messages[1].full_text(), "Hello!");
}

#[test]
fn tool_calls_complete_latest_running_one() {
    let mut app = AppState::new();
    app.add_user_message("q".to_string());
    app.add_tool_call("bash", "ls");
    assert_eq!(app.messages[0].parts.len(), 1);
    app.start_assistant_stream("build");
    let ts = app.messages[1].timestamp;
    app.add_tool_event("bash", "ls");
    app.add_tool_event("bash", "pwd");
    app.add_tool_event("read", "a.rs");
    match &app.messages[1].parts[0] {
        MessagePart::ToolCall { id, .. } => assert_eq!(id, &format!("tc-{ts}-bash")),
        _ => panic!("expected a call"),
    }
    app.complete_tool_event("bash", "out", true);
    assert_eq!(app.tools[1].status, ToolStatus::Completed);
    assert_eq!(app.tools[0].status, ToolStatus::Running);
    assert_eq!(
        text_parts(&app.messages[1].parts),
        vec![
            "call:bash:Running:None:false",
            "call:bash:Completed:Some(\"out\"):false",
            "call:read:Running:None:false",
        ]
    );
    app.complete_tool_call("bash", "err", false);
    assert_eq!(text_parts(&app.messages[1].parts)[0], "call:bash:Failed:Some(\"err\"):false");
    app.complete_tool_call("bash", "x", true);
    assert_eq!(text_parts(&app.messages[1].parts)[0], "call:bash:Failed:Some(\"err\"):false");
    assert_eq!(app.tool_count_for_message(1), 3);
    assert_eq!(app.tool_count_for_message(0), 0);
    assert_eq!(app.tool_count_for_message(9), 0);
}

#[test]
fn toggling_a_call_twice_restores_it() {
    let mut app = AppState::new();
    app.start_assistant_stream("build");
    app.append_to_stream("t");
    app.add_tool_call("a", "");
    app.add_tool_call("b", "");
    app.toggle_tool_expand(0, 1);
    assert_eq!(text_parts(&app.messages[0].parts)[2], "call:b:Running:None:true");
    app.toggle_tool_expand(0, 1);
    assert_eq!(text_parts(&app.messages[0].parts)[2], "call:b:Running:None:false");
    app.toggle_tool_expand(0, 5);
    app.toggle_tool_expand(3, 0);
    app.clear_tool_calls();
    assert_eq!(text_parts(&app.messages[0].parts), vec!["text:t"]);
}

#[test]
fn undo_and_redo_move_the_boundary() {
    let mut app = AppState::new();
    app.add_user_message("one".to_string());
    app.start_assistant_stream("build");
    app.finish_stream();
    app.add_user_message("two".to_string());
    app.start_assistant_stream("build");
    app.finish_stream();
    assert!(app.undo_message());
    assert_eq!(app.revert.as_ref().unwrap().message_boundary, 2);
    assert_eq!(app.revert.as_ref().unwrap().prompt_text, "two");
    assert_eq!(app.reverted_count(), 2);
    assert!(app.undo_message());
    assert_eq!(app.revert.as_ref().unwrap().message_boundary, 0);
    assert!(!app.undo_message());
    assert!(app.redo_message());
    assert_eq!(app.revert.as_ref().unwrap().message_boundary, 2);
    assert_eq!(app.revert.as_ref().unwrap().prompt_text, "two");
    assert!(app.redo_message());
    assert!(app.revert.is_none());
    assert!(app.undo_message());
    assert!(app.undo_message());
    app.revert.as_mut().unwrap().message_boundary = 1;
    assert!(app.redo_message());
    assert_eq!(app.revert.as_ref().unwrap().message_boundary, 2);
    app.revert.as_mut().unwrap().message_boundary = 3;
    assert!(app.redo_message());
    assert!(app.revert.is_none());
    assert!(!app.redo_message());
    assert!(app.undo_message());
    app.cleanup_reverted();
    assert_eq!(app.messages.len(), 2);
    assert!(app.revert.is_none());
    assert_eq!(app.reverted_count(), 0);
}

#[test]
fn undo_is_refused_while_streaming() {
    let mut app = AppState::new();
    app.add_user_message("one".to_string());
    app.start_assistant_stream("build");
    assert!(!app.undo_message());
    assert!(app.revert.is_none());
}

#[test]
fn errors_are_shown_inline() {
    let mut app = AppState::new();
    app.scroll_offset = 3;
    app.show_error("boom".to_string());
    assert_eq!(app.mode, AppMode::Error("boom".to_string()));
    assert!(matches!(&app.messages[0].role, MessageRole::Tool { name } if name == "error"));
    assert_eq!(app.messages[0].agent, "system");
    assert_eq!(app.messages[0].full_text(), "boom");
    assert_eq!(app.scroll_offset, usize::MAX);
    app.show_auth_error("denied".to_string());
    assert_eq!(app.mode, AppMode::AuthError("denied".to_string()));
    assert_eq!(app.messages.len(), 2);
}

#[test]
fn leader_toasts_and_toggles() {
    let mut app = AppState::new();
    app.activate_leader();
    assert!(app.leader_active);
    app.check_leader_timeout();
    assert!(app.leader_active);
    app.deactivate_leader();
    assert!(!app.leader_active && app.leader_activated_at.is_none());
    app.add_toast("saved", ToastKind::Success);
    assert_eq!(app.toasts.len(), 1);
    assert_eq!(app.toasts[0].message, "saved");
    assert!(!app.toggle_thinking());
    assert!(app.toggle_thinking());
    app.clear_selection();
    assert!(app.selection.is_none());
    assert!(app.turn_elapsed().is_none());
    app.scroll_offset = 7;
    app.recalculate_scroll();
    assert_eq!(app.scroll_offset, 0);
}

#[test]
fn elapsed_time_text() {
    assert_eq!(format_elapsed(5), "5s");
    assert_eq!(format_elapsed(65), "1m 5s");
    assert_eq!(format_elapsed(3725), "1h 2m");
}

#[test]
fn leader_key_expires_after_two_seconds() {
    let mut app = AppState::new();
    app.expire_leader(5);
    assert!(!app.leader_active);
    app.activate_leader();
    app.expire_leader(1);
    assert!(app.leader_active && app.leader_activated_at.is_some());
    app.expire_leader(2);
    assert!(!app.leader_active && app.leader_activated_at.is_none());
    app.activate_leader();
    app.check_leader_timeout();
    assert!(app.leader_active);
}

#[test]
fn one_redo_restores_one_undo() {
    let mut app = AppState::new();
    app.add_user_message("a".to_string());
    app.start_assistant_stream("build");
    app.finish_stream();
    app.add_user_message("b".to_string());
    app.start_assistant_stream("build");
    app.finish_stream();
    assert!(app.undo_message());
    assert_eq!(app.revert.as_ref().unwrap().message_boundary, 2);
    assert!(app.redo_message());
    assert!(app.revert.is_none());
    assert_eq!(app.messages.len(), 4);
}
