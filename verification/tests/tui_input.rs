use icode_cli::autocomplete::known_agents;
use icode_cli::input::{is_ref_char, parse_input_segments, InputSegment, InputState};

#[test]
fn parse_plain_text_no_chips() {
    let segments = parse_input_segments("hello world");
    assert_eq!(segments.len(), 1);
    assert!(matches!(&segments[0], InputSegment::Text(t) if t == "hello world"));
}

#[test]
fn parse_single_file_chip() {
    let segments = parse_input_segments("@main.rs");
    assert_eq!(segments.len(), 1);
    assert!(matches!(&segments[0], InputSegment::FileChip(t) if t == "@main.rs"));
}

#[test]
fn parse_single_agent_chip() {
    let segments = parse_input_segments("@build");
    assert_eq!(segments.len(), 1);
    assert!(matches!(&segments[0], InputSegment::AgentChip(t) if t == "@build"));
}

#[test]
fn parse_mixed_text_and_chips() {
    let segments = parse_input_segments("fix @main.rs using @plan");
    assert_eq!(segments.len(), 4);
    assert!(matches!(&segments[0], InputSegment::Text(t) if t == "fix "));
    assert!(matches!(&segments[1], InputSegment::FileChip(t) if t == "@main.rs"));
    assert!(matches!(&segments[2], InputSegment::Text(t) if t == " using "));
    assert!(matches!(&segments[3], InputSegment::AgentChip(t) if t == "@plan"));
}

#[test]
fn parse_file_chip_with_path() {
    let segments = parse_input_segments("@src/main.rs");
    assert_eq!(segments.len(), 1);
    assert!(matches!(&segments[0], InputSegment::FileChip(t) if t == "@src/main.rs"));
}

#[test]
fn parse_at_without_space_before_is_still_chip() {
    let segments = parse_input_segments("email@test.com");
    assert_eq!(segments.len(), 2);
    assert!(matches!(&segments[0], InputSegment::Text(t) if t == "email"));
    assert!(matches!(&segments[1], InputSegment::FileChip(t) if t == "@test.com"));
}

#[test]
fn parse_empty_input() {
    let segments = parse_input_segments("");
    assert_eq!(segments.len(), 0);
}

#[test]
fn parse_all_known_agents() {
    for agent in known_agents() {
        let input = format!("@{agent}");
        let segments = parse_input_segments(&input);
        assert_eq!(segments.len(), 1);
        assert!(matches!(&segments[0], InputSegment::AgentChip(t) if t == &input), "Expected AgentChip for @{agent}");
    }
}

#[test]
fn parse_multiple_file_chips() {
    let segments = parse_input_segments("@file1.txt and @file2.rs");
    assert_eq!(segments.len(), 3);
    assert!(matches!(&segments[0], InputSegment::FileChip(t) if t == "@file1.txt"));
    assert!(matches!(&segments[1], InputSegment::Text(t) if t == " and "));
    assert!(matches!(&segments[2], InputSegment::FileChip(t) if t == "@file2.rs"));
}

#[test]
fn parse_chip_with_hyphens() {
    let segments = parse_input_segments("@my-file");
    assert_eq!(segments.len(), 1);
    assert!(matches!(&segments[0], InputSegment::FileChip(t) if t == "@my-file"));
}

#[test]
fn is_ref_char_valid() {
    assert!(is_ref_char('a'));
    assert!(is_ref_char('Z'));
    assert!(is_ref_char('0'));
    assert!(is_ref_char('_'));
    assert!(is_ref_char('.'));
    assert!(is_ref_char('/'));
    assert!(is_ref_char('-'));
    assert!(!is_ref_char(' '));
    assert!(!is_ref_char('@'));
    assert!(!is_ref_char('\n'));
}

#[test]
fn segments_rejoin_to_the_input() {
    for input in ["fix @main.rs using @plan", "a@b@c", "@", "x @ y", "email@test.com and @build!"] {
        let joined: String = parse_input_segments(input)
            .iter()
            .map(|s| match s {
                InputSegment::Text(t) | InputSegment::FileChip(t) | InputSegment::AgentChip(t) => t.as_str(),
            })
            .collect();
        assert_eq!(joined, input);
    }
}

#[test]
fn insert_then_backspace_restores_the_value() {
    let mut input = InputState::new("> ");
    input.insert_str("héllo");
    input.move_left();
    input.move_left();
    let before = (input.value.clone(), input.cursor);
    input.insert_char('x');
    input.backspace();
    assert_eq!((input.value.clone(), input.cursor), before);
}

#[test]
fn history_recall_and_return() {
    let mut input = InputState::new("> ");
    input.insert_str("first");
    input.push_history();
    input.submit();
    input.insert_str("draft");
    input.history_up();
    assert_eq!(input.value, "first");
    input.history_down();
    assert_eq!(input.value, "draft");
}
