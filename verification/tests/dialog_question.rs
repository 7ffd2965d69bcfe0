use icode_cli::dialog_question::{
    content_height, custom_answer_label, QuestionDef, QuestionOption, QuestionPromptState, QuestionType,
};
use icode_cli::keys::KeyCode;

fn make_state() -> QuestionPromptState {
    QuestionPromptState::new()
}

fn make_single_select() -> Vec<QuestionDef> {
    vec![QuestionDef::select(
        "Pick one",
        "Choose:",
        vec![QuestionOption::new("Alpha"), QuestionOption::new("Beta"), QuestionOption::new("Gamma")],
    )]
}

fn make_multi_select() -> Vec<QuestionDef> {
    vec![QuestionDef::multi_select(
        "Pick many",
        "Select all:",
        vec![QuestionOption::new("Option A"), QuestionOption::new("Option B"), QuestionOption::new("Option C")],
    )]
}

fn make_multi() -> Vec<QuestionDef> {
    vec![
        QuestionDef::select("Q1", "First?", vec![QuestionOption::new("Choice 1"), QuestionOption::new("Choice 2")]),
        QuestionDef::multi_select("Q2", "Second?", vec![QuestionOption::new("Multi A"), QuestionOption::new("Multi B")]),
        QuestionDef::text("Q3", "Third?", "type here"),
    ]
}

fn custom_only(question: &str) -> Vec<QuestionDef> {
    vec![QuestionDef::select("C", question, vec![QuestionOption::with_description(custom_answer_label(), "x")])]
}

#[test]
fn tab_left_moves_to_previous() {
    let mut s = make_state();
    s.open(make_multi(), "agent".into(), String::new(), None);
    assert_eq!(s.active_tab, 0);
    s.tab_left();
    assert_eq!(s.active_tab, 0);
    s.active_tab = 2;
    s.tab_left();
    assert_eq!(s.active_tab, 1);
}

#[test]
fn tab_right_moves_to_next() {
    let mut s = make_state();
    s.open(make_multi(), "agent".into(), String::new(), None);
    s.tab_right();
    assert_eq!(s.active_tab, 1);
    s.tab_right();
    assert_eq!(s.active_tab, 2);
    s.tab_right();
    assert_eq!(s.active_tab, 3);
    s.tab_right();
    assert_eq!(s.active_tab, 3);
}

#[test]
fn tab_resets_cursor() {
    let mut s = make_state();
    s.open(make_multi(), "agent".into(), String::new(), None);
    s.cursor_idx = 1;
    s.tab_right();
    assert_eq!(s.cursor_idx, 0);
}

#[test]
fn single_select_auto_advances() {
    let mut s = make_state();
    s.open(make_single_select(), "agent".into(), String::new(), None);
    s.cursor_idx = 0;
    let adv = s.select_current();
    assert!(adv);
    assert_eq!(s.answers[0], vec!["Alpha"]);
}

#[test]
fn single_select_last_submits() {
    let mut s = make_state();
    s.open(make_single_select(), "agent".into(), String::new(), None);
    s.cursor_idx = 1;
    let r = s.handle_key(KeyCode::Char('2'));
    assert!(r.is_some());
    assert_eq!(r.unwrap().answer, "Beta");
}

#[test]
fn single_select_non_last_advances() {
    let mut s = make_state();
    s.open(make_multi(), "agent".into(), String::new(), None);
    let r = s.handle_key(KeyCode::Char('1'));
    assert!(r.is_none());
    assert_eq!(s.active_tab, 1);
    assert_eq!(s.answers[0], vec!["Choice 1"]);
}

#[test]
fn multi_select_space_toggles() {
    let mut s = make_state();
    s.open(make_multi_select(), "agent".into(), String::new(), None);
    s.cursor_idx = 0;
    s.handle_key(KeyCode::Char(' '));
    assert_eq!(s.answers[0], vec!["Option A"]);
    s.handle_key(KeyCode::Char(' '));
    assert!(s.answers[0].is_empty());
    s.cursor_down();
    s.handle_key(KeyCode::Char(' '));
    assert_eq!(s.answers[0], vec!["Option B"]);
}

#[test]
fn multi_select_enter_confirms() {
    let mut s = make_state();
    s.open(make_multi_select(), "agent".into(), String::new(), None);
    s.cursor_idx = 0;
    s.handle_key(KeyCode::Enter);
    assert_eq!(s.active_tab, 1);
}

#[test]
fn multi_select_multiple() {
    let mut s = make_state();
    s.open(make_multi_select(), "agent".into(), String::new(), None);
    s.cursor_idx = 0;
    s.select_current();
    s.cursor_idx = 2;
    s.select_current();
    assert_eq!(s.answers[0], vec!["Option A", "Option C"]);
}

#[test]
fn numbered_shortcut_selects() {
    let mut s = make_state();
    s.open(make_single_select(), "agent".into(), String::new(), None);
    let r = s.handle_key(KeyCode::Char('3'));
    assert!(r.is_some());
    assert_eq!(r.unwrap().answer, "Gamma");
}

#[test]
fn numbered_shortcut_ooo_ignored() {
    let mut s = make_state();
    s.open(make_single_select(), "agent".into(), String::new(), None);
    let r = s.handle_key(KeyCode::Char('5'));
    assert!(r.is_none());
    assert!(s.answers[0].is_empty());
}

#[test]
fn numbered_one_selects_first() {
    let mut s = make_state();
    s.open(make_single_select(), "agent".into(), String::new(), None);
    let r = s.handle_key(KeyCode::Char('1'));
    assert!(r.is_some());
    assert_eq!(r.unwrap().answer, "Alpha");
}

#[test]
fn custom_answer_activates_editing() {
    let mut s = make_state();
    s.open(
        vec![QuestionDef::select(
            "C",
            "Pick:",
            vec![QuestionOption::new("A"), QuestionOption::with_description(custom_answer_label(), "x")],
        )],
        "agent".into(),
        String::new(),
        None,
    );
    s.cursor_idx = 1;
    s.handle_key(KeyCode::Enter);
    assert!(s.editing_custom);
}

#[test]
fn custom_input_type_and_confirm() {
    let mut s = make_state();
    s.open(custom_only("Type:"), "agent".into(), String::new(), None);
    s.cursor_idx = 0;
    s.handle_key(KeyCode::Enter);
    for c in ['h', 'e', 'l', 'l', 'o'] {
        s.handle_key(KeyCode::Char(c));
    }
    assert_eq!(s.custom_input, "hello");
    let r = s.handle_key(KeyCode::Enter);
    assert!(r.is_some());
    assert_eq!(r.unwrap().answer, "hello");
}

#[test]
fn custom_input_backspace() {
    let mut s = make_state();
    s.open(custom_only("Type:"), "agent".into(), String::new(), None);
    s.cursor_idx = 0;
    s.handle_key(KeyCode::Enter);
    s.handle_key(KeyCode::Char('a'));
    s.handle_key(KeyCode::Char('b'));
    s.handle_key(KeyCode::Char('c'));
    s.handle_key(KeyCode::Backspace);
    assert_eq!(s.custom_input, "ab");
}

#[test]
fn custom_input_esc_cancels() {
    let mut s = make_state();
    s.open(custom_only("Type:"), "agent".into(), String::new(), None);
    s.cursor_idx = 0;
    s.handle_key(KeyCode::Enter);
    s.handle_key(KeyCode::Char('x'));
    assert!(s.editing_custom);
    s.handle_key(KeyCode::Esc);
    assert!(!s.editing_custom);
    assert!(s.custom_input.is_empty());
    assert!(s.open);
}

#[test]
fn confirm_esc_dismisses() {
    let mut s = make_state();
    s.open(make_single_select(), "agent".into(), String::new(), None);
    s.active_tab = 1;
    let r = s.handle_key(KeyCode::Esc);
    assert!(r.is_some());
    assert!(r.unwrap().cancelled);
    assert!(!s.open);
}

#[test]
fn submit_single_answer() {
    let mut s = make_state();
    s.open(make_single_select(), "agent".into(), String::new(), None);
    s.answers[0] = vec!["Beta".to_string()];
    let r = s.submit();
    assert_eq!(r.answer, "Beta");
    assert!(!r.cancelled);
}

#[test]
fn submit_multiple_answers() {
    let mut s = make_state();
    s.open(make_multi(), "agent".into(), String::new(), None);
    s.answers[0] = vec!["Choice 1".to_string()];
    s.answers[1] = vec!["Multi A".to_string(), "Multi B".to_string()];
    s.answers[2] = vec!["typed".to_string()];
    let r = s.submit();
    assert!(r.answer.contains("Choice 1"));
    assert!(r.answer.contains("Multi A"));
    assert!(r.answer.contains("typed"));
}

#[test]
fn submit_cancelled_empty() {
    let mut s = make_state();
    s.open(make_single_select(), "agent".into(), String::new(), None);
    assert!(s.submit().cancelled);
}

#[test]
fn esc_dismisses() {
    let mut s = make_state();
    s.open(make_single_select(), "agent".into(), String::new(), None);
    let r = s.handle_key(KeyCode::Esc);
    assert!(r.is_some());
    assert!(r.unwrap().cancelled);
    assert!(!s.open);
}

#[test]
fn open_initializes() {
    let mut s = make_state();
    s.open(make_multi(), "ta".into(), "ctx".into(), None);
    assert!(s.open);
    assert_eq!(s.questions.len(), 3);
    assert_eq!(s.answers.len(), 3);
}

#[test]
fn open_single_compat() {
    let mut s = make_state();
    s.open_single("Q?".into(), "a".into(), "c".into(), QuestionType::Text { placeholder: "p".into() }, None);
    assert!(s.open);
    assert_eq!(s.questions.len(), 1);
}

#[test]
fn close_resets() {
    let mut s = make_state();
    s.open(make_multi(), "a".into(), String::new(), None);
    s.close();
    assert!(!s.open);
    assert!(s.questions.is_empty());
}

#[test]
fn qdef_text() {
    let q = QuestionDef::text("H", "Q", "p");
    assert_eq!(q.header, "H");
    assert!(q.options.is_empty());
}

#[test]
fn qdef_select() {
    let q = QuestionDef::select("H", "Q", vec![QuestionOption::new("A")]);
    assert!(matches!(q.question_type, QuestionType::Select));
}

#[test]
fn qdef_multi() {
    let q = QuestionDef::multi_select("H", "Q", vec![QuestionOption::new("A")]);
    assert!(matches!(q.question_type, QuestionType::MultiSelect));
}

#[test]
fn option_with_desc() {
    let o = QuestionOption::with_description("L", "D");
    assert_eq!(o.label, "L");
    assert_eq!(o.description, "D");
}

#[test]
fn is_custom_idx() {
    let q = QuestionDef::select(
        "T",
        "Q",
        vec![QuestionOption::new("N"), QuestionOption::with_description(custom_answer_label(), "c")],
    );
    assert!(!q.is_custom_answer_idx(0));
    assert!(q.is_custom_answer_idx(1));
}

#[test]
fn confirmation_tab_left_goes_back() {
    let mut s = make_state();
    s.open(make_multi(), "agent".into(), String::new(), None);
    s.active_tab = 3;
    assert!(s.handle_key(KeyCode::Left).is_none());
    assert_eq!(s.active_tab, 2);
    s.active_tab = 3;
    assert!(s.handle_key(KeyCode::Up).is_none());
    assert_eq!(s.active_tab, 3);
}

#[test]
fn prompt_height_by_tab() {
    let mut s = make_state();
    s.open(make_single_select(), "agent".into(), String::new(), None);
    assert_eq!(content_height(&s), 12);
    s.editing_custom = true;
    assert_eq!(content_height(&s), 12);
    let many: Vec<QuestionOption> = (0..15).map(|i| QuestionOption::new(&format!("o{i}"))).collect();
    s.open(vec![QuestionDef::select("H", "Q", many)], "agent".into(), String::new(), None);
    assert_eq!(content_height(&s), 18);
    let qs: Vec<QuestionDef> = (0..20).map(|i| QuestionDef::text(&format!("q{i}"), "Q", "p")).collect();
    s.open(qs, "agent".into(), String::new(), None);
    s.active_tab = 20;
    assert_eq!(content_height(&s), 30);
}
