use icode_cli::keys::KeyCode;
use icode_cli::permission::{
    format_input_details, format_json_value, format_parsed_input_details, human_tool_name, humanize_action, permission_mode_badge, tool_display_info,
    tool_icon, DetailTone, JsonValue, PermissionAction, PermissionDialogState, PermissionMode, PermissionRequest,
    PermissionStage,
};

fn make_request(tool_name: &str, input: &str) -> PermissionRequest {
    PermissionRequest {
        tool_name: tool_name.to_string(),
        input: input.to_string(),
        current_mode: PermissionMode::ReadOnly,
        required_mode: PermissionMode::WorkspaceWrite,
        reason: None,
    }
}

fn texts(lines: &[Vec<icode_cli::permission::DetailSpan>]) -> Vec<String> {
    lines.iter().map(|l| l.iter().map(|s| s.text.as_str()).collect::<String>()).collect()
}

#[test]
fn test_open_resets_to_permission_stage() {
    let mut state = PermissionDialogState::new();
    state.stage = PermissionStage::RejectMessage;
    state.reject_message = "test".to_string();
    state.open(make_request("bash", "ls"));
    assert_eq!(state.stage, PermissionStage::Permission);
    assert_eq!(state.reject_message, "");
}

#[test]
fn test_close_resets_stage() {
    let mut state = PermissionDialogState::new();
    state.open(make_request("bash", "ls"));
    state.stage = PermissionStage::AlwaysConfirm;
    state.close();
    assert_eq!(state.stage, PermissionStage::Permission);
    assert!(!state.open);
}

#[test]
fn test_esc_transitions_to_reject_stage() {
    let mut state = PermissionDialogState::new();
    state.open(make_request("bash", "ls"));
    let result = state.handle_key(KeyCode::Esc);
    assert!(result.is_none());
    assert_eq!(state.stage, PermissionStage::RejectMessage);
}

#[test]
fn test_a_transitions_to_always_stage() {
    let mut state = PermissionDialogState::new();
    state.open(make_request("bash", "ls"));
    let result = state.handle_key(KeyCode::Char('a'));
    assert!(result.is_none());
    assert_eq!(state.stage, PermissionStage::AlwaysConfirm);
}

#[test]
fn test_enter_on_permission_returns_approve() {
    let mut state = PermissionDialogState::new();
    state.open(make_request("bash", "ls"));
    let result = state.handle_key(KeyCode::Enter);
    assert_eq!(result, Some(PermissionAction::Approve));
    assert!(!state.open);
}

#[test]
fn test_enter_on_always_returns_always_allow() {
    let mut state = PermissionDialogState::new();
    state.open(make_request("bash", "ls"));
    state.handle_key(KeyCode::Char('a'));
    let result = state.handle_key(KeyCode::Enter);
    assert_eq!(result, Some(PermissionAction::AlwaysAllow));
    assert!(!state.open);
}

#[test]
fn test_enter_on_reject_returns_deny() {
    let mut state = PermissionDialogState::new();
    state.open(make_request("bash", "ls"));
    state.handle_key(KeyCode::Esc);
    let result = state.handle_key(KeyCode::Enter);
    assert_eq!(result, Some(PermissionAction::Deny));
    assert!(!state.open);
}

#[test]
fn test_esc_from_always_returns_to_permission() {
    let mut state = PermissionDialogState::new();
    state.open(make_request("bash", "ls"));
    state.handle_key(KeyCode::Char('a'));
    let result = state.handle_key(KeyCode::Esc);
    assert!(result.is_none());
    assert_eq!(state.stage, PermissionStage::Permission);
}

#[test]
fn test_esc_from_reject_returns_to_permission() {
    let mut state = PermissionDialogState::new();
    state.open(make_request("bash", "ls"));
    state.handle_key(KeyCode::Esc);
    let result = state.handle_key(KeyCode::Esc);
    assert!(result.is_none());
    assert_eq!(state.stage, PermissionStage::Permission);
}

#[test]
fn test_left_right_cycle_buttons() {
    let mut state = PermissionDialogState::new();
    state.open(make_request("bash", "ls"));
    state.handle_key(KeyCode::Right);
    assert_eq!(state.focused_button, 1);
    state.handle_key(KeyCode::Right);
    assert_eq!(state.focused_button, 2);
    state.handle_key(KeyCode::Right);
    assert_eq!(state.focused_button, 0);
    state.handle_key(KeyCode::Left);
    assert_eq!(state.focused_button, 2);
}

#[test]
fn test_reject_message_accumulates_chars() {
    let mut state = PermissionDialogState::new();
    state.open(make_request("bash", "ls"));
    state.handle_key(KeyCode::Esc);
    state.handle_key(KeyCode::Char('t'));
    state.handle_key(KeyCode::Char('e'));
    state.handle_key(KeyCode::Char('s'));
    state.handle_key(KeyCode::Char('t'));
    assert_eq!(state.reject_message, "test");
}

#[test]
fn test_backspace_deletes_last_char() {
    let mut state = PermissionDialogState::new();
    state.open(make_request("bash", "ls"));
    state.handle_key(KeyCode::Esc);
    state.handle_key(KeyCode::Char('a'));
    state.handle_key(KeyCode::Char('b'));
    state.handle_key(KeyCode::Backspace);
    assert_eq!(state.reject_message, "a");
}

#[test]
fn test_backspace_on_empty_does_not_panic() {
    let mut state = PermissionDialogState::new();
    state.open(make_request("bash", "ls"));
    state.handle_key(KeyCode::Esc);
    state.handle_key(KeyCode::Backspace);
    assert_eq!(state.reject_message, "");
}

#[test]
fn test_bash_display_info() {
    let info = tool_display_info(&make_request("bash", "ls -la"));
    assert_eq!(info.icon, '$');
    assert_eq!(info.title, "Shell command");
    assert_eq!(info.body, vec!["ls -la"]);
}

#[test]
fn test_edit_file_display_info() {
    let info = tool_display_info(&make_request("edit", r#"{"path": "src/main.rs"}"#));
    assert_eq!(info.icon, '\u{2192}');
    assert_eq!(info.title, "Edit src/main.rs");
    assert_eq!(info.body, vec!["src/main.rs"]);
}

#[test]
fn test_read_file_display_info() {
    let info = tool_display_info(&make_request("read_file", r#"{"path": "Cargo.toml"}"#));
    assert_eq!(info.icon, '\u{2192}');
    assert_eq!(info.title, "Read Cargo.toml");
    assert_eq!(info.body, vec!["Cargo.toml"]);
}

#[test]
fn test_glob_search_display_info() {
    let info = tool_display_info(&make_request("glob_search", r#"{"pattern": "**/*.rs"}"#));
    assert_eq!(info.icon, '\u{2731}');
    assert_eq!(info.title, "Glob pattern");
    assert_eq!(info.body, vec!["**/*.rs"]);
}

#[test]
fn test_grep_search_display_info() {
    let info = tool_display_info(&make_request("grep_search", r#"{"pattern": "fn main"}"#));
    assert_eq!(info.icon, '\u{2731}');
    assert_eq!(info.title, "Grep pattern");
    assert_eq!(info.body, vec!["fn main"]);
}

#[test]
fn test_list_directory_display_info() {
    let info = tool_display_info(&make_request("list", r#"{"path": "src/"}"#));
    assert_eq!(info.icon, '\u{2192}');
    assert_eq!(info.title, "List directory");
    assert_eq!(info.body, vec!["src/"]);
}

#[test]
fn test_agent_task_display_info() {
    let info = tool_display_info(&make_request("task", r#"{"description": "Analyze codebase"}"#));
    assert_eq!(info.icon, '#');
    assert_eq!(info.title, "Agent Task");
    assert_eq!(info.body, vec!["Analyze codebase"]);
}

#[test]
fn test_web_fetch_display_info() {
    let info = tool_display_info(&make_request("web_fetch", r#"{"url": "https://example.com"}"#));
    assert_eq!(info.icon, '%');
    assert_eq!(info.title, "WebFetch");
    assert_eq!(info.body, vec!["https://example.com"]);
}

#[test]
fn test_web_search_display_info() {
    let info = tool_display_info(&make_request("web_search", r#"{"query": "rust best practices"}"#));
    assert_eq!(info.icon, '\u{25c7}');
    assert_eq!(info.title, "Web Search");
    assert_eq!(info.body, vec!["rust best practices"]);
}

#[test]
fn test_unknown_tool_display_info() {
    let info = tool_display_info(&make_request("custom_tool", "some input"));
    assert_eq!(info.icon, '\u{2699}');
    assert_eq!(info.title, "Tool: Custom_tool");
    assert_eq!(info.body, vec!["some input"]);
}

#[test]
fn test_write_file_display_info() {
    let info = tool_display_info(&make_request("write_file", r#"{"path": "output.txt"}"#));
    assert_eq!(info.icon, '\u{2192}');
    assert_eq!(info.title, "Edit output.txt");
    assert_eq!(info.body, vec!["output.txt"]);
}

#[test]
fn display_falls_back_to_raw_input() {
    let info = tool_display_info(&make_request("edit", "not json"));
    assert_eq!(info.title, "Edit file");
    assert_eq!(info.body, vec!["not json"]);
    let info = tool_display_info(&make_request("read_file", r#"{"file_path": "a.rs"}"#));
    assert_eq!(info.title, "Read a.rs");
    let info = tool_display_info(&make_request("agent", r#"{"prompt": "go"}"#));
    assert_eq!(info.body, vec!["go"]);
    let info = tool_display_info(&make_request("glob", r#"{"directory": "docs"}"#));
    assert_eq!(info.body, vec!["docs"]);
    let info = tool_display_info(&make_request("web_fetch", r#"{"url": 3}"#));
    assert_eq!(info.body, vec![r#"{"url": 3}"#]);
}

#[test]
fn names_icons_and_badges() {
    assert_eq!(human_tool_name("bash"), "Shell");
    assert_eq!(human_tool_name("notebook_edit"), "Notebook Edit");
    assert_eq!(human_tool_name("ßtool"), "SStool");
    assert_eq!(human_tool_name(""), "");
    assert_eq!(tool_icon("cat"), "\u{2192}");
    assert_eq!(tool_icon("save"), "\u{2190}");
    assert_eq!(tool_icon("todo"), "\u{2611}");
    assert_eq!(tool_icon("whatever"), "\u{2699}");
    assert_eq!(permission_mode_badge(PermissionMode::DangerFullAccess), "danger-full-access");
    assert_eq!(humanize_action(&make_request("read_file", "")), "Read File wants to modify files");
}

#[test]
fn input_details_for_plain_text_and_empty() {
    let lines = format_parsed_input_details("", None, 3);
    assert_eq!(texts(&lines), vec!["(no input details)"]);
    let lines = format_parsed_input_details("a\nb\nc\nd", None, 3);
    assert_eq!(texts(&lines), vec!["a", "b", "c..."]);
    assert!(lines.iter().all(|l| l.iter().all(|s| s.tone == DetailTone::Dim)));
    let lines = format_parsed_input_details("a\nb", None, 3);
    assert_eq!(texts(&lines), vec!["a", "b"]);
    let lines = format_parsed_input_details("abc", None, 0);
    assert_eq!(texts(&lines), vec!["abc"]);
}

#[test]
fn input_details_for_json() {
    let obj = JsonValue::Object(vec![
        ("path".to_string(), JsonValue::Str("src/main.rs".to_string())),
        ("count".to_string(), JsonValue::Number("3".to_string())),
        ("force".to_string(), JsonValue::Bool(true)),
        ("extra".to_string(), JsonValue::Null),
        ("list".to_string(), JsonValue::Array(vec![JsonValue::Null, JsonValue::Null])),
    ]);
    let lines = format_parsed_input_details("{...}", Some(&obj), 3);
    assert_eq!(texts(&lines), vec!["path: src/main.rs", "count: 3", "force: true", "..."]);
    assert_eq!(lines[1][1].tone, DetailTone::Numeric);
    assert_eq!(lines[2][1].tone, DetailTone::Flag);
    let lines = format_json_value(&obj, 1, 10);
    assert_eq!(texts(&lines)[3], "  extra: null");
    assert_eq!(texts(&lines)[4], "  list: [2 entries]");
    let arr = JsonValue::Array(vec![
        JsonValue::Str("a".to_string()),
        JsonValue::Number("1".to_string()),
        JsonValue::Str("b".to_string()),
    ]);
    assert_eq!(texts(&format_json_value(&arr, 0, 5)), vec!["[0] a", "[2] b"]);
    assert_eq!(texts(&format_json_value(&JsonValue::Object(Vec::new()), 0, 5)), vec!["(empty)"]);
    let long = "x".repeat(70);
    let obj = JsonValue::Object(vec![("k".to_string(), JsonValue::Str(long))]);
    assert_eq!(texts(&format_json_value(&obj, 0, 5))[0], format!("k: {}...", "x".repeat(57)));
}

#[test]
fn input_details_parse_the_request_input() {
    let lines = format_input_details("{\"path\": \"src/main.rs\"}", 3);
    assert_eq!(texts(&lines), vec!["path: src/main.rs"]);
    let lines = format_input_details("{\"count\": 3}", 3);
    assert_eq!(texts(&lines), vec!["count: 3"]);
    assert_eq!(lines[0][1].tone, DetailTone::Numeric);
    let lines = format_input_details("not json\nsecond", 3);
    assert_eq!(texts(&lines), vec!["not json", "second"]);
    let lines = format_input_details("", 3);
    assert_eq!(texts(&lines), vec!["(no input details)"]);
}
