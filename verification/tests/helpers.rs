use icode_cli::agent_picker::{mode_label, AgentEntry, AgentMode, AgentPickerState};
use icode_cli::dialog_fork::{session_id_at, truncate_to_words};
use icode_cli::dialog_skills::{parse_skill_description, shorten_source};
use icode_cli::file_picker::{bounded_content, fuzzy_match, resolve_reference_path, split_file_references, MAX_CONTENT_SIZE};
use icode_cli::input::InputState;
use icode_cli::text::{split_char, split_words};

#[test]
fn preview_keeps_whole_words() {
    assert_eq!(truncate_to_words("short", 10), "short");
    assert_eq!(truncate_to_words("one two three four", 9), "one two");
    assert_eq!(truncate_to_words("  spaced   out words ", 12), "spaced out");
    assert_eq!(truncate_to_words("abcdefghijkl", 5), "abcde");
    assert_eq!(truncate_to_words("ééééé", 4), "éééé");
}

#[test]
fn sources_are_shortened_from_the_left() {
    assert_eq!(shorten_source("project | /a", 20), "project | /a");
    assert_eq!(shorten_source("user | /home/me/skills", 10), ".../skills");
}

#[test]
fn agent_modes_are_labelled() {
    assert_eq!(mode_label(&AgentMode::Primary), "Primary");
    assert_eq!(mode_label(&AgentMode::Subagent), "Subagent");
    assert_eq!(mode_label(&AgentMode::All), "All");
    let agents = vec![
        AgentEntry { name: "build".into(), description: "Builds".into(), mode: AgentMode::Primary },
        AgentEntry { name: "review".into(), description: "Reviews code".into(), mode: AgentMode::Subagent },
    ];
    let mut picker = AgentPickerState::new();
    picker.open(&agents);
    picker.type_char('c', &agents);
    assert_eq!(picker.filtered, vec![1]);
    assert_eq!(picker.select(&agents), Some("review".to_string()));
}

#[test]
fn file_references_are_split_and_resolved() {
    let (text, paths) = split_file_references("look at @src/main.rs and @ here @x");
    assert_eq!(text, "look at  and @ here");
    assert_eq!(paths, vec!["src/main.rs".to_string(), "x".to_string()]);
    assert_eq!(resolve_reference_path("a.rs", "/work", false), "/work/a.rs");
    assert_eq!(resolve_reference_path("/abs/a.rs", "/work", true), "/abs/a.rs");
}

#[test]
fn large_files_are_cut_with_a_notice() {
    assert_eq!(bounded_content("small"), "small");
    let big = "y".repeat(MAX_CONTENT_SIZE + 5);
    let out = bounded_content(&big);
    let head = format!("[File too large: {} bytes (max 51200)]\n", MAX_CONTENT_SIZE + 5);
    assert!(out.starts_with(&head));
    assert!(out.ends_with("\n... (truncated)"));
    let body = &out[head.len()..out.len() - "\n... (truncated)".len()];
    assert_eq!(body, "y".repeat(MAX_CONTENT_SIZE));
}

#[test]
fn splitting_helpers() {
    assert_eq!(split_char("ctrl+shift+p", '+'), vec!["ctrl", "shift", "p"]);
    assert_eq!(split_char("+a+", '+'), vec!["", "a", ""]);
    assert_eq!(split_char("", '+'), vec![""]);
    let s = "a+b++c";
    assert_eq!(split_char(s, '+').join("+"), s);
    assert_eq!(split_words(" a  bc\td\n"), vec!["a", "bc", "d"]);
    assert!(split_words("   ").is_empty());
}

#[test]
fn display_width_counts_wide_characters() {
    let mut input = InputState::new("> ");
    input.insert_str("日本語");
    assert_eq!(input.line_count(6), 2);
    assert_eq!(input.line_count(8), 1);
}

#[test]
fn skill_descriptions_and_ids() {
    let contents = "---\nname: x\ndescription: Does things\n---\nbody";
    assert_eq!(parse_skill_description(contents), Some("Does things".to_string()));
    assert_eq!(session_id_at(1_234_567), "1234-4581".to_string());
    let files = vec!["src/main.rs".to_string(), "docs/readme.md".to_string()];
    assert_eq!(fuzzy_match(&files, "main"), vec!["src/main.rs".to_string()]);
}
