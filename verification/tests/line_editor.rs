use icode_cli::completion::{
    detect_context, directory_to_list, extract_after_command, extract_partial_path, file_completion_query,
    file_completions, find_path_start, find_token_start, normalize_completions, slash_command_prefix, Completion,
    CompletionContext, SlashCommandHelper,
};

fn ready(c: Completion) -> (usize, Vec<String>) {
    match c {
        Completion::Ready(start, matches) => (start, matches),
        Completion::Files { .. } => panic!("expected candidates"),
    }
}

#[test]
fn extracts_terminal_slash_command_prefixes_with_arguments() {
    assert_eq!(slash_command_prefix("/he", 3), Some("/he"));
    assert_eq!(slash_command_prefix("/help me", 8), Some("/help me"));
    assert_eq!(slash_command_prefix("/session switch ses", 19), Some("/session switch ses"));
    assert_eq!(slash_command_prefix("hello", 5), None);
    assert_eq!(slash_command_prefix("/help", 2), None);
}

#[test]
fn completes_matching_slash_commands() {
    let helper = SlashCommandHelper::new(vec!["/help".to_string(), "/hello".to_string(), "/status".to_string()]);
    let (start, matches) = ready(helper.complete("/he", 3));
    assert_eq!(start, 0);
    assert_eq!(matches, vec!["/help".to_string(), "/hello".to_string()]);
}

#[test]
fn completes_matching_slash_command_arguments() {
    let mut helper = SlashCommandHelper::new(vec![
        "/model".to_string(),
        "/model opus".to_string(),
        "/model sonnet".to_string(),
        "/session switch alpha".to_string(),
    ]);
    helper.set_models(vec!["opus".to_string(), "sonnet".to_string()]);
    helper.set_sessions(vec!["alpha".to_string(), "beta".to_string()]);
    let (start, matches) = ready(helper.complete("/model o", 8));
    assert_eq!(start, 7);
    assert_eq!(matches, vec!["opus".to_string()]);
}

#[test]
fn completes_file_paths() {
    let helper = SlashCommandHelper::new(vec!["/export".to_string()]);
    match helper.complete("/export Cargo", 13) {
        Completion::Files { start, partial } => {
            assert_eq!(start, 8);
            assert_eq!(partial, "Cargo");
            let (dir, prefix) = file_completion_query(&partial);
            assert_eq!(dir, "");
            assert_eq!(prefix, "Cargo");
            assert_eq!(directory_to_list(&dir), ".");
            let entries = vec![
                ("Cargo.toml".to_string(), false),
                ("src".to_string(), true),
                ("Cargo.lock".to_string(), false),
            ];
            let replacements = file_completions(&dir, &prefix, &entries);
            assert!(replacements.iter().any(|r| r.starts_with("Cargo")));
            assert_eq!(replacements, vec!["Cargo.toml".to_string(), "Cargo.lock".to_string()]);
        }
        Completion::Ready(..) => panic!("expected a file listing request"),
    }
}

#[test]
fn completes_session_ids() {
    let mut helper = SlashCommandHelper::new(vec!["/session switch".to_string()]);
    helper.set_sessions(vec!["alpha".to_string(), "beta".to_string()]);
    let (start, matches) = ready(helper.complete("/session switch a", 17));
    assert_eq!(start, 16);
    assert_eq!(matches, vec!["alpha".to_string()]);
}

#[test]
fn ignores_non_slash_command_completion_requests() {
    let helper = SlashCommandHelper::new(vec!["/help".to_string()]);
    let (start, matches) = ready(helper.complete("hello", 5));
    assert_eq!(start, 5);
    assert!(matches.is_empty());
}

#[test]
fn tracks_current_buffer_through_highlighter() {
    let mut helper = SlashCommandHelper::new(Vec::new());
    let _ = helper.highlight("draft", 5);
    assert_eq!(helper.current_line(), "draft");
}

#[test]
fn set_completions_replaces_and_normalizes_candidates() {
    let mut helper = SlashCommandHelper::new(vec!["/help".to_string()]);
    helper.set_completions(vec!["/model opus".to_string(), "/model opus".to_string(), "status".to_string()]);
    assert_eq!(helper.completions, vec!["/model opus".to_string()]);
}

#[test]
fn normalize_keeps_first_of_each_slash_command() {
    let out = normalize_completions(vec![
        "/b".to_string(),
        "x".to_string(),
        "/a".to_string(),
        "/b".to_string(),
        "".to_string(),
    ]);
    assert_eq!(out, vec!["/b".to_string(), "/a".to_string()]);
}

#[test]
fn detects_each_completion_context() {
    assert_eq!(detect_context("/export fi", 10), CompletionContext::FilePath);
    assert_eq!(detect_context("/export\tfi", 10), CompletionContext::FilePath);
    assert_eq!(detect_context("/model so", 9), CompletionContext::ModelName);
    assert_eq!(detect_context("/session switch x", 17), CompletionContext::SessionId);
    assert_eq!(detect_context("/he", 3), CompletionContext::CommandName);
    assert_eq!(detect_context("hello", 5), CompletionContext::Other);
    assert_eq!(detect_context("/export fi", 3), CompletionContext::CommandName);
}

#[test]
fn extracts_typed_words_and_their_starts() {
    assert_eq!(extract_partial_path("/export src/ma", 14), "src/ma");
    assert_eq!(find_path_start("/export src/ma", 14), 8);
    assert_eq!(extract_after_command("/model op", 9, "/model "), "op");
    assert_eq!(find_token_start("/model op", 9, "/model "), 7);
    assert_eq!(extract_after_command("/help", 5, "/model "), "");
    assert_eq!(find_token_start("/help", 5, "/model "), 5);
    // Positions are bytes: the typed path after a multi-byte character.
    assert_eq!(extract_partial_path("/export é", 10), "é");
    assert_eq!(find_path_start("/export é", 10), 8);
}

#[test]
fn model_completions_are_capped_at_twenty() {
    let mut helper = SlashCommandHelper::new(Vec::new());
    helper.set_models((0..30).map(|i| format!("m{i}")).collect());
    let (_, matches) = ready(helper.complete("/model m", 8));
    assert_eq!(matches.len(), 20);
    assert_eq!(matches[0], "m0");
}

#[test]
fn file_query_splits_parent_and_name() {
    let (dir, prefix) = file_completion_query("src/ma");
    assert_eq!(dir, "src");
    assert_eq!(prefix, "ma");
    let (dir, prefix) = file_completion_query("src/");
    assert_eq!(dir, "src/");
    assert_eq!(prefix, "");
    let entries = vec![("main.rs".to_string(), false), ("mod".to_string(), true)];
    assert_eq!(
        file_completions("src", "m", &entries),
        vec!["src/main.rs".to_string(), "src/mod/".to_string()]
    );
}
