use icode_cli::input::InputState;

fn state_with(value: &str, cursor: usize) -> InputState {
    let mut s = InputState::new("> ");
    s.insert_str(value);
    s.cursor = cursor;
    s
}

#[test]
fn word_moves_skip_spaces_then_a_word() {
    let mut s = state_with("hello brave  world", 18);
    s.move_word_left();
    assert_eq!(s.cursor, 13);
    s.move_word_left();
    assert_eq!(s.cursor, 6);
    s.move_word_right();
    assert_eq!(s.cursor, 11);
    s.move_word_right();
    assert_eq!(s.cursor, 18);
    s.move_word_right();
    assert_eq!(s.cursor, 18);
    s.move_home();
    assert_eq!(s.cursor, 0);
    s.move_word_left();
    assert_eq!(s.cursor, 0);
    s.move_end();
    assert_eq!(s.cursor, 18);
}

#[test]
fn word_deletes_remove_a_word_and_its_spaces() {
    let mut s = state_with("hello brave  world", 11);
    s.delete_word_left();
    assert_eq!(s.value, "hello   world");
    assert_eq!(s.cursor, 6);
    s.delete_word_right();
    assert_eq!(s.value, "hello ");
    assert_eq!(s.cursor, 6);
    s.delete_word_right();
    assert_eq!(s.value, "hello ");
}

#[test]
fn deletes_to_either_end_of_the_line() {
    let mut s = state_with("héllo wörld", 5);
    s.delete_to_end();
    assert_eq!(s.value, "héllo");
    assert_eq!(s.cursor, 5);
    s.move_left();
    s.move_left();
    s.delete_to_start();
    assert_eq!(s.value, "lo");
    assert_eq!(s.cursor, 0);
    s.move_right();
    assert_eq!(s.cursor, 1);
}

#[test]
fn up_and_down_keep_the_column() {
    let mut s = state_with("abc\ndefgh", 9);
    assert_eq!(s.cursor_position(40), (1, 5));
    assert!(s.move_up(40));
    assert_eq!(s.cursor, 3);
    assert!(!s.move_up(40));
    assert!(s.move_down(40));
    assert_eq!(s.cursor, 7);
    assert!(!s.move_down(40));
    assert!(!s.move_up(0));
}

#[test]
fn history_lookups_without_frecency() {
    let mut s = InputState::new("> ");
    s.history = vec!["Fix bug".to_string(), "add test".to_string(), "fix docs".to_string()];
    assert_eq!(s.history_suggestions("FIX", 5), vec!["Fix bug", "fix docs"]);
    assert_eq!(s.history_suggestions("fix", 1), vec!["Fix bug"]);
    assert_eq!(s.frecency_top_entries(2), vec!["fix docs", "add test"]);
}

#[test]
fn placeholder_shows_until_text_is_typed() {
    let mut s = InputState::new("> ");
    assert_eq!(s.visible_text(), "Ask icode to do anything...");
    s.insert_char('x');
    assert_eq!(s.visible_text(), "x");
    s.set_cwd("/work".to_string());
    assert_eq!(s.cwd, "/work");
    assert!(!s.complete_contextual());
    assert!(s.selected_slash_completion().is_none());
}

#[test]
fn one_visual_line_stays_put_on_down() {
    let mut s = InputState::new("> ");
    s.insert_str("abcdefgh");
    s.cursor = 0;
    assert_eq!(s.line_count(12), 1);
    assert_eq!(s.total_rows(12), 1);
    assert!(!s.move_down(12));
    assert_eq!(s.cursor, 0);
    s.cursor = 8;
    assert_eq!(s.cursor_position(12), (0, 8));
}

#[test]
fn long_lines_wrap_at_the_row_width() {
    let mut s = InputState::new("> ");
    s.insert_str("abcdefghijkl");
    assert_eq!(s.total_rows(12), 2);
    assert_eq!(s.cursor_position(12), (1, 2));
    assert!(s.move_up(12));
    assert_eq!(s.cursor, 2);
    assert!(s.move_down(12));
    assert_eq!(s.cursor, 12);
}
