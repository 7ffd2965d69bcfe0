//! The question prompt: an agent asks one or more questions (free text, one choice or several
//! choices), the user answers them tab by tab and confirms. The keys are interpreted by a
//! state machine over a plain model of the prompt (`QModel`), which the executable state
//! follows exactly.
use vstd::prelude::*;
use crate::keys::KeyCode;
use crate::text::{
    views, char_to_digit, contains_seq, copy_string, is_blank, join_strings, join_with, lemma_contains_extend,
    lemma_contains_self, lemma_contains_trans, lemma_join_contains_part, pop_char, push_char, str_eq, str_is_blank,
};

verus! {

/// Declares `std::sync::mpsc::Sender`, the channel on which an answer is handed back.
#[verifier::external_type_specification]
#[verifier::external_body]
#[verifier::reject_recursive_types(T)]
pub struct ExSender<T>(std::sync::mpsc::Sender<T>);

/// An answer waiting to be sent on the channel it belongs to.
pub struct AnswerDelivery {
    pub tx: std::sync::mpsc::Sender<String>,
    pub text: String,
}

// ---------------------------------------------------------------------------
// Questions
// ---------------------------------------------------------------------------

/// How a question is answered.
#[derive(Debug, Clone, PartialEq)]
pub enum QuestionType {
    Text { placeholder: String },
    Select,
    MultiSelect,
}

impl QuestionType {
    /// A free-text question with the given placeholder.
    pub fn text(placeholder: &str) -> (t: Self)
        ensures
            t matches QuestionType::Text { placeholder: p } && p@ == placeholder@,
    {
        QuestionType::Text { placeholder: String::from_str(placeholder) }
    }

    /// A question answered by one choice (the choices are given with the question).
    pub fn select(options: Vec<String>, default_idx: Option<usize>) -> (t: Self)
        ensures
            t is Select,
    {
        QuestionType::Select
    }

    /// A question answered by several choices (the choices are given with the question).
    pub fn multi_select(options: Vec<String>, defaults: Vec<usize>) -> (t: Self)
        ensures
            t is MultiSelect,
    {
        QuestionType::MultiSelect
    }
}

/// The reply to a prompt.
pub struct QuestionResponse {
    pub answer: String,
    pub cancelled: bool,
}

/// One choice of a question.
#[derive(Debug, Clone)]
pub struct QuestionOption {
    pub label: String,
    pub description: String,
}

impl QuestionOption {
    /// A choice without description.
    pub fn new(label: &str) -> (o: Self)
        ensures
            o.label@ == label@,
            o.description@.len() == 0,
    {
        QuestionOption { label: String::from_str(label), description: String::new() }
    }

    /// A choice with a description.
    pub fn with_description(label: &str, description: &str) -> (o: Self)
        ensures
            o.label@ == label@,
            o.description@ == description@,
    {
        QuestionOption { label: String::from_str(label), description: String::from_str(description) }
    }
}

/// The label of the choice that lets the user type an answer.
pub open spec fn custom_label() -> Seq<char> {
    "Type your own answer"@
}

/// The label of the choice that lets the user type an answer.
pub fn custom_answer_label() -> (s: &'static str)
    ensures
        s@ == custom_label(),
{
    "Type your own answer"
}

/// One question.
#[derive(Debug, Clone)]
pub struct QuestionDef {
    pub header: String,
    pub question: String,
    pub question_type: QuestionType,
    pub options: Vec<QuestionOption>,
}

/// A question as the key handling sees it: header, kind and choice labels.
pub struct QDefModel {
    pub header: Seq<char>,
    pub kind: QuestionType,
    pub options: Seq<Seq<char>>,
}

/// The model of a question.
pub open spec fn qdef_model(q: QuestionDef) -> QDefModel {
    QDefModel {
        header: q.header@,
        kind: q.question_type,
        options: q.options@.map_values(|o: QuestionOption| o.label@),
    }
}

/// The models of a list of questions.
pub open spec fn qdefs_model(qs: Seq<QuestionDef>) -> Seq<QDefModel> {
    qs.map_values(|q: QuestionDef| qdef_model(q))
}

/// The number of choices that can be picked: none for a free-text question.
pub open spec fn option_count_of(q: QDefModel) -> int {
    match q.kind {
        QuestionType::Text { .. } => 0,
        _ => q.options.len() as int,
    }
}

/// Choice `idx` is the one that lets the user type an answer.
pub open spec fn is_custom(q: QDefModel, idx: int) -> bool {
    0 <= idx < q.options.len() && q.options[idx] == custom_label()
}

impl QuestionDef {
    /// A free-text question.
    pub fn text(header: &str, question: &str, placeholder: &str) -> (q: Self)
        ensures
            q.header@ == header@,
            q.question@ == question@,
            q.question_type matches QuestionType::Text { placeholder: p } && p@ == placeholder@,
            q.options@.len() == 0,
    {
        QuestionDef {
            header: String::from_str(header),
            question: String::from_str(question),
            question_type: QuestionType::Text { placeholder: String::from_str(placeholder) },
            options: Vec::new(),
        }
    }

    /// A question answered by one of `options`.
    pub fn select(header: &str, question: &str, options: Vec<QuestionOption>) -> (q: Self)
        ensures
            q.header@ == header@,
            q.question@ == question@,
            q.question_type is Select,
            q.options == options,
    {
        QuestionDef {
            header: String::from_str(header),
            question: String::from_str(question),
            question_type: QuestionType::Select,
            options,
        }
    }

    /// A question answered by several of `options`.
    pub fn multi_select(header: &str, question: &str, options: Vec<QuestionOption>) -> (q: Self)
        ensures
            q.header@ == header@,
            q.question@ == question@,
            q.question_type is MultiSelect,
            q.options == options,
    {
        QuestionDef {
            header: String::from_str(header),
            question: String::from_str(question),
            question_type: QuestionType::MultiSelect,
            options,
        }
    }

    /// The number of choices that can be picked.
    pub fn option_count(&self) -> (n: usize)
        ensures
            n == option_count_of(qdef_model(*self)),
    {
        match &self.question_type {
            QuestionType::Text { .. } => 0,
            _ => self.options.len(),
        }
    }

    /// Whether choice `idx` is the one that lets the user type an answer.
    pub fn is_custom_answer_idx(&self, idx: usize) -> (b: bool)
        ensures
            b == is_custom(qdef_model(*self), idx as int),
    {
        idx < self.options.len() && str_eq(self.options[idx].label.as_str(), custom_answer_label())
    }
}

// ---------------------------------------------------------------------------
// The model and its transitions
// ---------------------------------------------------------------------------

/// What the keys change: the tab (one per question, then the confirmation tab), the cursor
/// among the choices, the scroll of the choice list, the typed answer and whether it is
/// being typed, and the answers given so far, one list per question.
pub struct QModel {
    pub tab: int,
    pub cursor: int,
    pub scroll: int,
    pub custom: Seq<char>,
    pub editing: bool,
    pub answers: Seq<Seq<Seq<char>>>,
}

/// What a key leads to besides the new model.
pub enum KeyOutcome {
    /// The prompt stays open.
    Stay,
    /// The answers are submitted and the prompt closes.
    Submit,
    /// The prompt is dismissed.
    Dismiss,
}

/// Rows of choices shown at once.
pub const VISIBLE_OPTIONS: usize = 10;

/// The scroll offset that keeps `cursor` among `VISIBLE_OPTIONS` rows.
pub open spec fn scroll_for(cursor: int, scroll: int) -> int {
    if cursor < scroll {
        cursor
    } else if cursor >= scroll + VISIBLE_OPTIONS {
        cursor - VISIBLE_OPTIONS + 1
    } else {
        scroll
    }
}

/// `m` moved to tab `t` with a fresh cursor.
pub open spec fn to_tab(m: QModel, t: int) -> QModel {
    QModel { tab: t, cursor: 0, scroll: 0, custom: Seq::empty(), editing: false, ..m }
}

/// The current tab is the last question's (or past it).
pub open spec fn is_last_m(qs: Seq<QDefModel>, m: QModel) -> bool {
    m.tab >= if qs.len() > 0 { qs.len() - 1 } else { 0 }
}

/// The next tab, when there is one.
pub open spec fn advance_m(qs: Seq<QDefModel>, m: QModel) -> QModel {
    if m.tab < qs.len() {
        to_tab(m, m.tab + 1)
    } else {
        m
    }
}

/// The previous tab, when there is one.
pub open spec fn tab_left_m(m: QModel) -> QModel {
    if m.tab > 0 {
        to_tab(m, m.tab - 1)
    } else {
        m
    }
}

/// The choice above.
pub open spec fn cursor_up_m(m: QModel) -> QModel {
    if m.cursor > 0 {
        QModel { cursor: m.cursor - 1, scroll: scroll_for(m.cursor - 1, m.scroll), ..m }
    } else {
        m
    }
}

/// The choice below, staying at the last.
pub open spec fn cursor_down_m(qs: Seq<QDefModel>, m: QModel) -> QModel {
    if 0 <= m.tab < qs.len() && option_count_of(qs[m.tab]) > 0 && m.cursor < option_count_of(
        qs[m.tab],
    ) - 1 {
        QModel { cursor: m.cursor + 1, scroll: scroll_for(m.cursor + 1, m.scroll), ..m }
    } else {
        m
    }
}

/// The first position of `x` in `l`.
pub open spec fn first_pos(l: Seq<Seq<char>>, x: Seq<char>) -> Option<int>
    decreases l.len(),
{
    if l.len() == 0 {
        None
    } else {
        match first_pos(l.drop_last(), x) {
            Some(p) => Some(p),
            None => if l.last() == x {
                Some(l.len() - 1)
            } else {
                None
            },
        }
    }
}

/// `l` with `x` taken out (its first occurrence) when present, added last otherwise.
pub open spec fn toggled(l: Seq<Seq<char>>, x: Seq<char>) -> Seq<Seq<char>> {
    match first_pos(l, x) {
        Some(p) => l.remove(p),
        None => l.push(x),
    }
}

/// `m` with the typed answer being edited afresh.
pub open spec fn start_editing(m: QModel) -> QModel {
    QModel { editing: true, custom: Seq::empty(), ..m }
}

/// Picking the choice under the cursor: the new model, and whether the prompt should move on.
/// On the typed-answer choice, the first pick starts typing and the second takes the typed
/// text, unless it is blank. A single-choice question takes the label and moves on; a
/// multiple-choice question toggles the label and stays.
pub open spec fn select_m(qs: Seq<QDefModel>, m: QModel) -> (QModel, bool) {
    if m.tab < 0 || m.tab >= qs.len() || m.cursor < 0 || m.cursor >= qs[m.tab].options.len() {
        (m, false)
    } else if is_custom(qs[m.tab], m.cursor) {
        if m.editing {
            if !is_blank(m.custom) {
                (QModel { answers: m.answers.update(m.tab, seq![m.custom]), ..m }, true)
            } else {
                (m, false)
            }
        } else {
            (start_editing(m), false)
        }
    } else {
        let label = qs[m.tab].options[m.cursor];
        match qs[m.tab].kind {
            QuestionType::Select => (QModel { answers: m.answers.update(m.tab, seq![label]), ..m }, true),
            QuestionType::MultiSelect => (
                QModel { answers: m.answers.update(m.tab, toggled(m.answers[m.tab], label)), ..m },
                false,
            ),
            QuestionType::Text { .. } => (m, false),
        }
    }
}

/// After a pick that moves on: submit on the last question, else go to the next tab.
pub open spec fn move_on(qs: Seq<QDefModel>, m: QModel) -> (QModel, KeyOutcome) {
    if is_last_m(qs, m) {
        (m, KeyOutcome::Submit)
    } else {
        (advance_m(qs, m), KeyOutcome::Stay)
    }
}

/// A digit key `1` to `9`: picks choice `num - 1` of the current question.
pub open spec fn number_m(qs: Seq<QDefModel>, m: QModel, num: int) -> (QModel, KeyOutcome) {
    let idx = if num >= 1 { num - 1 } else { 0 };
    if m.tab < 0 || m.tab >= qs.len() || idx >= option_count_of(qs[m.tab]) {
        (m, KeyOutcome::Stay)
    } else {
        let (m2, adv) = select_m(qs, QModel { cursor: idx, ..m });
        if adv {
            move_on(qs, m2)
        } else {
            (m2, KeyOutcome::Stay)
        }
    }
}

/// Enter on a choice of a single-choice or free-text question with choices: start typing on
/// the typed-answer choice, else pick it and move on.
pub open spec fn pick_and_move_on(qs: Seq<QDefModel>, m: QModel) -> (QModel, KeyOutcome) {
    if is_custom(qs[m.tab], m.cursor) {
        (start_editing(m), KeyOutcome::Stay)
    } else {
        move_on(qs, select_m(qs, m).0)
    }
}

/// The Enter key on a question tab.
pub open spec fn enter_m(qs: Seq<QDefModel>, m: QModel) -> (QModel, KeyOutcome) {
    if m.tab < 0 || m.tab >= qs.len() {
        (m, KeyOutcome::Stay)
    } else {
        let q = qs[m.tab];
        match q.kind {
            QuestionType::Text { .. } => {
                if q.options.len() == 0 {
                    (
                        QModel { answers: m.answers.update(m.tab, seq!["[text_input]"@]), ..m },
                        KeyOutcome::Stay,
                    )
                } else if 0 <= m.cursor < q.options.len() {
                    pick_and_move_on(qs, m)
                } else {
                    (m, KeyOutcome::Stay)
                }
            },
            QuestionType::Select => {
                if 0 <= m.cursor < q.options.len() {
                    pick_and_move_on(qs, m)
                } else {
                    (m, KeyOutcome::Stay)
                }
            },
            QuestionType::MultiSelect => {
                if 0 <= m.cursor < q.options.len() {
                    if is_custom(q, m.cursor) {
                        (start_editing(m), KeyOutcome::Stay)
                    } else {
                        let m2 = select_m(qs, m).0;
                        if is_last_m(qs, m2) {
                            (QModel { tab: qs.len() as int, cursor: 0, ..m2 }, KeyOutcome::Stay)
                        } else {
                            (advance_m(qs, m2), KeyOutcome::Stay)
                        }
                    }
                } else {
                    (m, KeyOutcome::Stay)
                }
            },
        }
    }
}

/// The space key on a question tab.
pub open spec fn space_m(qs: Seq<QDefModel>, m: QModel) -> (QModel, KeyOutcome) {
    if m.tab < 0 || m.tab >= qs.len() {
        (m, KeyOutcome::Stay)
    } else {
        let q = qs[m.tab];
        match q.kind {
            QuestionType::MultiSelect => {
                if 0 <= m.cursor < q.options.len() && !is_custom(q, m.cursor) {
                    (select_m(qs, m).0, KeyOutcome::Stay)
                } else {
                    (m, KeyOutcome::Stay)
                }
            },
            QuestionType::Select => {
                if 0 <= m.cursor < q.options.len() {
                    pick_and_move_on(qs, m)
                } else {
                    (m, KeyOutcome::Stay)
                }
            },
            QuestionType::Text { .. } => (m, KeyOutcome::Stay),
        }
    }
}

/// A key on the confirmation tab.
pub open spec fn confirm_tab_m(m: QModel, code: KeyCode) -> (QModel, KeyOutcome) {
    match code {
        KeyCode::Enter => (m, KeyOutcome::Submit),
        KeyCode::Esc => (m, KeyOutcome::Dismiss),
        KeyCode::Left => (tab_left_m(m), KeyOutcome::Stay),
        _ => (m, KeyOutcome::Stay),
    }
}

/// A key while an answer is being typed.
pub open spec fn editing_m(qs: Seq<QDefModel>, m: QModel, code: KeyCode) -> (QModel, KeyOutcome) {
    match code {
        KeyCode::Enter => {
            if !is_blank(m.custom) {
                move_on(
                    qs,
                    QModel { answers: m.answers.update(m.tab, seq![m.custom]), editing: false, ..m },
                )
            } else {
                (m, KeyOutcome::Stay)
            }
        },
        KeyCode::Esc => (QModel { editing: false, custom: Seq::empty(), ..m }, KeyOutcome::Stay),
        KeyCode::Char(c) => (QModel { custom: m.custom.push(c), ..m }, KeyOutcome::Stay),
        KeyCode::Backspace => (
            QModel {
                custom: if m.custom.len() > 0 {
                    m.custom.drop_last()
                } else {
                    m.custom
                },
                ..m
            },
            KeyOutcome::Stay,
        ),
        KeyCode::Left => (tab_left_m(m), KeyOutcome::Stay),
        KeyCode::Right => {
            if m.tab < qs.len() {
                (
                    QModel { tab: m.tab + 1, cursor: 0, editing: false, custom: Seq::empty(), ..m },
                    KeyOutcome::Stay,
                )
            } else {
                (m, KeyOutcome::Stay)
            }
        },
        _ => (m, KeyOutcome::Stay),
    }
}

/// A key: on the confirmation tab, while typing an answer, or on a question tab.
pub open spec fn key_m(qs: Seq<QDefModel>, m: QModel, code: KeyCode) -> (QModel, KeyOutcome) {
    if m.tab >= qs.len() {
        confirm_tab_m(m, code)
    } else if m.editing {
        editing_m(qs, m, code)
    } else {
        match code {
            KeyCode::Up => (cursor_up_m(m), KeyOutcome::Stay),
            KeyCode::Down => (cursor_down_m(qs, m), KeyOutcome::Stay),
            KeyCode::Left => (tab_left_m(m), KeyOutcome::Stay),
            KeyCode::Right => (advance_m(qs, m), KeyOutcome::Stay),
            KeyCode::Enter => enter_m(qs, m),
            KeyCode::Char(c) => {
                if c == ' ' {
                    space_m(qs, m)
                } else if '1' <= c <= '9' {
                    number_m(qs, m, c as int - '0' as int)
                } else {
                    (m, KeyOutcome::Stay)
                }
            },
            KeyCode::Esc => (m, KeyOutcome::Dismiss),
            _ => (m, KeyOutcome::Stay),
        }
    }
}

/// One part of the submitted text: the header, then the answers or `[skipped]`.
pub open spec fn answer_part(header: Seq<char>, a: Seq<Seq<char>>) -> Seq<char> {
    header + ": "@ + if a.len() == 0 {
        "[skipped]"@
    } else {
        join_with(a, ", "@)
    }
}

/// The submitted text: the first answer of a single question; otherwise one part per
/// question, joined by ` | `.
pub open spec fn collected(qs: Seq<QDefModel>, answers: Seq<Seq<Seq<char>>>) -> Seq<char> {
    if qs.len() == 1 {
        if answers.len() > 0 && answers[0].len() > 0 {
            answers[0][0]
        } else {
            Seq::empty()
        }
    } else {
        let n = if qs.len() < answers.len() { qs.len() } else { answers.len() };
        join_with(Seq::new(n, |i: int| answer_part(qs[i].header, answers[i])), " | "@)
    }
}

/// Nothing picked is lost on submitting several questions: the submitted text holds, for
/// each question, its header followed by `: `, every answer picked for it, and `[skipped]`
/// when none was picked.
pub proof fn lemma_submitted_text_holds_every_answer(
    qs: Seq<QDefModel>,
    answers: Seq<Seq<Seq<char>>>,
    i: int,
    j: int,
)
    requires
        qs.len() >= 2,
        answers.len() == qs.len(),
        0 <= i < qs.len(),
    ensures
        contains_seq(collected(qs, answers), qs[i].header + ": "@),
        0 <= j < answers[i].len() ==> contains_seq(collected(qs, answers), answers[i][j]),
        answers[i].len() == 0 ==> contains_seq(collected(qs, answers), "[skipped]"@),
{
    let n = qs.len();
    let parts = Seq::new(n, |k: int| answer_part(qs[k].header, answers[k]));
    assert(collected(qs, answers) == join_with(parts, " | "@));
    lemma_join_contains_part(parts, " | "@, i);
    let head = qs[i].header + ": "@;
    let a = answers[i];
    let tail = if a.len() == 0 { "[skipped]"@ } else { join_with(a, ", "@) };
    assert(parts[i] == head + tail);
    lemma_contains_self(head);
    lemma_contains_extend(head, head, Seq::empty(), tail);
    assert(Seq::<char>::empty() + head + tail =~= parts[i]);
    lemma_contains_trans(collected(qs, answers), parts[i], head);
    lemma_contains_self(tail);
    lemma_contains_extend(tail, tail, head, Seq::empty());
    assert(head + tail + Seq::<char>::empty() =~= parts[i]);
    lemma_contains_trans(collected(qs, answers), parts[i], tail);
    if 0 <= j < a.len() {
        lemma_join_contains_part(a, ", "@, j);
        lemma_contains_trans(collected(qs, answers), tail, a[j]);
    }
}

/// Submitting one question gives its first answer, or the empty text when none was picked.
pub proof fn lemma_single_question_submits_first_answer(qs: Seq<QDefModel>, answers: Seq<Seq<Seq<char>>>)
    requires
        qs.len() == 1,
        answers.len() == 1,
    ensures
        answers[0].len() > 0 ==> collected(qs, answers) == answers[0][0],
        answers[0].len() == 0 ==> collected(qs, answers).len() == 0,
{
}

/// A submitted text counts as cancelled when empty or `[cancelled]`.
pub open spec fn is_cancel(answer: Seq<char>) -> bool {
    answer.len() == 0 || answer == "[cancelled]"@
}

// ---------------------------------------------------------------------------
// The prompt
// ---------------------------------------------------------------------------

/// The state of the question prompt.
pub struct QuestionPromptState {
    pub open: bool,
    pub agent: String,
    pub context: String,
    pub questions: Vec<QuestionDef>,
    pub answers: Vec<Vec<String>>,
    pub active_tab: usize,
    pub cursor_idx: usize,
    pub scroll_offset: usize,
    pub custom_input: String,
    pub editing_custom: bool,
    pub answer_tx: Option<std::sync::mpsc::Sender<String>>,
    /// The answer handed over by the last submit or dismissal, until it is taken to be sent.
    pub pending_answer: Option<AnswerDelivery>,
}

/// The plain values of the answers.
pub open spec fn answers_model(a: Seq<Vec<String>>) -> Seq<Seq<Seq<char>>> {
    a.map_values(|v: Vec<String>| views(v@))
}

/// `s` is the closed prompt.
pub open spec fn is_closed(s: QuestionPromptState) -> bool {
    &&& !s.open
    &&& s.agent@.len() == 0 && s.context@.len() == 0
    &&& s.questions@.len() == 0 && s.answers@.len() == 0
    &&& s.active_tab == 0 && s.cursor_idx == 0 && s.scroll_offset == 0
    &&& s.custom_input@.len() == 0 && !s.editing_custom
    &&& s.answer_tx is None
}

/// `s` keeps what `o` was opened with.
pub open spec fn keeps_setup(o: QuestionPromptState, s: QuestionPromptState) -> bool {
    &&& s.open == o.open
    &&& s.agent == o.agent && s.context == o.context
    &&& s.questions == o.questions
    &&& s.answer_tx == o.answer_tx
    &&& s.pending_answer == o.pending_answer
}

/// Going from `o` to `s`, `text` was handed over for the channel of `o`: with a channel, the
/// pending answer is `text` for that channel; without one, the pending answer is unchanged.
pub open spec fn handed_over(o: QuestionPromptState, s: QuestionPromptState, text: Seq<char>) -> bool {
    match o.answer_tx {
        Some(t) => s.pending_answer matches Some(d) && d.tx == t && d.text@ == text,
        None => s.pending_answer == o.pending_answer,
    }
}

/// The text sent for a reply: empty when it is cancelled, else the answer.
pub open spec fn reply_text(r: QuestionResponse) -> Seq<char> {
    if r.cancelled { Seq::empty() } else { r.answer@ }
}

/// The step from `o` to `s` with reply `r` is the model transition `t`: staying open with the
/// new model, submitting the new model's answers, or dismissing.
pub open spec fn stepped(
    o: QuestionPromptState,
    s: QuestionPromptState,
    r: Option<QuestionResponse>,
    t: (QModel, KeyOutcome),
) -> bool {
    match t.1 {
        KeyOutcome::Stay => r is None && keeps_setup(o, s) && s.model() == t.0,
        KeyOutcome::Submit => r matches Some(resp) && resp.answer@ == collected(
            qdefs_model(o.questions@),
            t.0.answers,
        ) && resp.cancelled == is_cancel(resp.answer@) && is_closed(s) && handed_over(
            o,
            s,
            reply_text(resp),
        ),
        KeyOutcome::Dismiss => r matches Some(resp) && resp.answer@.len() == 0 && resp.cancelled
            && is_closed(s) && handed_over(o, s, Seq::empty()),
    }
}

impl QuestionPromptState {
    /// The model of the prompt.
    pub open spec fn model(&self) -> QModel {
        QModel {
            tab: self.active_tab as int,
            cursor: self.cursor_idx as int,
            scroll: self.scroll_offset as int,
            custom: self.custom_input@,
            editing: self.editing_custom,
            answers: answers_model(self.answers@),
        }
    }

    /// The models of the questions.
    pub open spec fn qs(&self) -> Seq<QDefModel> {
        qdefs_model(self.questions@)
    }

    /// One list of answers per question.
    pub open spec fn wf(&self) -> bool {
        self.answers@.len() == self.questions@.len()
    }

    /// A closed prompt.
    pub fn new() -> (s: Self)
        ensures
            is_closed(s),
            s.wf(),
            s.pending_answer is None,
    {
        QuestionPromptState {
            open: false,
            agent: String::new(),
            context: String::new(),
            questions: Vec::new(),
            answers: Vec::new(),
            active_tab: 0,
            cursor_idx: 0,
            scroll_offset: 0,
            custom_input: String::new(),
            editing_custom: false,
            answer_tx: None,
            pending_answer: None,
        }
    }

    /// Opens the prompt on `questions`, none answered, on the first tab.
    pub fn open(
        &mut self,
        questions: Vec<QuestionDef>,
        agent: String,
        context: String,
        answer_tx: Option<std::sync::mpsc::Sender<String>>,
    )
        ensures
            final(self).open,
            final(self).agent == agent && final(self).context == context,
            final(self).questions == questions,
            final(self).answer_tx == answer_tx,
            final(self).pending_answer == old(self).pending_answer,
            final(self).wf(),
            forall|i: int| 0 <= i < final(self).answers@.len() ==> #[trigger] final(self).answers@[i]@.len() == 0,
            final(self).active_tab == 0 && final(self).cursor_idx == 0 && final(self).scroll_offset == 0,
            final(self).custom_input@.len() == 0 && !final(self).editing_custom,
    {
        let n = questions.len();
        let mut answers: Vec<Vec<String>> = Vec::new();
        let mut i: usize = 0;
        while i < n
            invariant
                i <= n,
                answers@.len() == i,
                forall|k: int| 0 <= k < i ==> #[trigger] answers@[k]@.len() == 0,
            decreases n - i,
        {
            answers.push(Vec::new());
            i = i + 1;
        }
        self.open = true;
        self.agent = agent;
        self.context = context;
        self.questions = questions;
        self.answers = answers;
        self.active_tab = 0;
        self.cursor_idx = 0;
        self.scroll_offset = 0;
        self.custom_input = String::new();
        self.editing_custom = false;
        self.answer_tx = answer_tx;
    }

    /// Opens the prompt on one question without choices, headed by its kind.
    pub fn open_single(
        &mut self,
        question: String,
        agent: String,
        context: String,
        question_type: QuestionType,
        answer_tx: Option<std::sync::mpsc::Sender<String>>,
    )
        ensures
            final(self).open,
            final(self).agent == agent && final(self).context == context,
            final(self).questions@.len() == 1,
            final(self).questions@[0].header@ == match question_type {
                QuestionType::Text { .. } => "Answer"@,
                QuestionType::Select => "Choose"@,
                QuestionType::MultiSelect => "Select"@,
            },
            final(self).questions@[0].question == question,
            final(self).questions@[0].question_type == question_type,
            final(self).questions@[0].options@.len() == 0,
            final(self).answer_tx == answer_tx,
            final(self).pending_answer == old(self).pending_answer,
            final(self).wf(),
            final(self).answers@[0]@.len() == 0,
            final(self).active_tab == 0 && final(self).cursor_idx == 0,
    {
        let header = match &question_type {
            QuestionType::Text { .. } => "Answer",
            QuestionType::Select => "Choose",
            QuestionType::MultiSelect => "Select",
        };
        let qdef = QuestionDef {
            header: String::from_str(header),
            question,
            question_type,
            options: Vec::new(),
        };
        let mut qs: Vec<QuestionDef> = Vec::new();
        qs.push(qdef);
        self.open(qs, agent, context, answer_tx);
    }

    /// Closes the prompt and forgets its questions and answers; an answer handed over stays.
    pub fn close(&mut self)
        ensures
            is_closed(*final(self)),
            final(self).wf(),
            final(self).pending_answer == old(self).pending_answer,
    {
        self.open = false;
        self.agent = String::new();
        self.context = String::new();
        self.questions = Vec::new();
        self.answers = Vec::new();
        self.active_tab = 0;
        self.cursor_idx = 0;
        self.scroll_offset = 0;
        self.custom_input = String::new();
        self.editing_custom = false;
        self.answer_tx = None;
    }

    fn is_last_question(&self) -> (b: bool)
        ensures
            b == is_last_m(self.qs(), self.model()),
    {
        let n = self.questions.len();
        self.active_tab >= if n > 0 {
            n - 1
        } else {
            0
        }
    }

    fn advance_tab(&mut self)
        ensures
            keeps_setup(*old(self), *final(self)),
            final(self).answers == old(self).answers,
            final(self).model() == advance_m(old(self).qs(), old(self).model()),
    {
        if self.active_tab < self.questions.len() {
            self.active_tab = self.active_tab + 1;
            self.cursor_idx = 0;
            self.scroll_offset = 0;
            self.custom_input = String::new();
            self.editing_custom = false;
        }
    }

    fn collect_answers(&self) -> (r: String)
        ensures
            r@ == collected(self.qs(), self.model().answers),
    {
        let ghost qs = self.qs();
        let ghost am = self.model().answers;
        if self.questions.len() == 1 {
            if self.answers.len() > 0 && self.answers[0].len() > 0 {
                return copy_string(&self.answers[0][0]);
            }
            return String::new();
        }
        let n = if self.questions.len() < self.answers.len() {
            self.questions.len()
        } else {
            self.answers.len()
        };
        let mut parts: Vec<String> = Vec::new();
        let mut i: usize = 0;
        while i < n
            invariant
                i <= n,
                n <= self.questions@.len(),
                n <= self.answers@.len(),
                qs == self.qs(),
                am == self.model().answers,
                parts@.len() == i,
                forall|k: int| 0 <= k < i ==> #[trigger] parts@[k]@ == answer_part(qs[k].header, am[k]),
            decreases n - i,
        {
            let mut p = copy_string(&self.questions[i].header);
            p.append(": ");
            proof {
                reveal_strlit(": ");
            }
            if self.answers[i].len() == 0 {
                p.append("[skipped]");
            } else {
                let joined = join_strings(&self.answers[i], ", ");
                p.append(joined.as_str());
            }
            parts.push(p);
            i = i + 1;
        }
        let r = join_strings(&parts, " | ");
        assert(parts@.map_values(|p: String| p@) =~= Seq::new(
            n as nat,
            |k: int| answer_part(qs[k].header, am[k]),
        ));
        r
    }

    /// The text handed to the answer channel for reply `r`: nothing without a channel; the
    /// empty text for a cancelled reply, else the answer.
    pub fn outgoing_answer(&self, r: &QuestionResponse) -> (t: Option<String>)
        ensures
            t matches Some(m) ==> self.answer_tx is Some && m@ == reply_text(*r),
            t is None <==> self.answer_tx is None,
    {
        match &self.answer_tx {
            Some(_) => {
                if r.cancelled {
                    Some(String::new())
                } else {
                    Some(copy_string(&r.answer))
                }
            },
            None => None,
        }
    }

    /// Hands `text` over for the prompt's channel, if it has one, and lets go of the channel.
    fn hand_over(&mut self, text: Option<String>)
        requires
            text is Some <==> old(self).answer_tx is Some,
        ensures
            handed_over(*old(self), *final(self), match text { Some(m) => m@, None => Seq::empty() }),
            final(self).answer_tx is None,
            final(self).open == old(self).open && final(self).agent == old(self).agent,
            final(self).context == old(self).context && final(self).questions == old(self).questions,
            final(self).answers == old(self).answers && final(self).model() == old(self).model(),
    {
        let mut tx: Option<std::sync::mpsc::Sender<String>> = None;
        std::mem::swap(&mut tx, &mut self.answer_tx);
        match (tx, text) {
            (Some(t), Some(m)) => {
                self.pending_answer = Some(AnswerDelivery { tx: t, text: m });
            },
            _ => {},
        }
    }

    /// Submits the answers: the reply holds the collected text, cancelled when it is empty or
    /// `[cancelled]`; the text of `outgoing_answer` for that reply is handed over for the
    /// channel, if any (see `take_pending_answer`); the prompt closes.
    pub fn submit(&mut self) -> (r: QuestionResponse)
        ensures
            r.answer@ == collected(old(self).qs(), old(self).model().answers),
            r.cancelled == is_cancel(r.answer@),
            handed_over(*old(self), *final(self), reply_text(r)),
            is_closed(*final(self)),
            final(self).wf(),
    {
        let answer = self.collect_answers();
        let cancelled = answer.unicode_len() == 0 || str_eq(answer.as_str(), "[cancelled]");
        let r = QuestionResponse { answer, cancelled };
        let out = self.outgoing_answer(&r);
        self.hand_over(out);
        self.close();
        r
    }

    /// Takes the answer handed over by the last submit or dismissal, to be sent on its
    /// channel; nothing else changes.
    pub fn take_pending_answer(&mut self) -> (d: Option<AnswerDelivery>)
        ensures
            d == old(self).pending_answer,
            final(self).pending_answer is None,
            final(self).open == old(self).open && final(self).agent == old(self).agent,
            final(self).context == old(self).context && final(self).questions == old(self).questions,
            final(self).answers == old(self).answers && final(self).model() == old(self).model(),
            final(self).answer_tx == old(self).answer_tx,
    {
        let mut d: Option<AnswerDelivery> = None;
        std::mem::swap(&mut d, &mut self.pending_answer);
        d
    }

    fn ensure_visible_options(&mut self)
        ensures
            keeps_setup(*old(self), *final(self)),
            final(self).answers == old(self).answers,
            final(self).model() == (QModel {
                scroll: scroll_for(old(self).cursor_idx as int, old(self).scroll_offset as int),
                ..old(self).model()
            }),
    {
        if self.cursor_idx < self.scroll_offset {
            self.scroll_offset = self.cursor_idx;
        } else if self.cursor_idx - self.scroll_offset >= VISIBLE_OPTIONS {
            self.scroll_offset = self.cursor_idx - VISIBLE_OPTIONS + 1;
        }
    }

    /// Moves to the choice above.
    pub fn cursor_up(&mut self)
        ensures
            keeps_setup(*old(self), *final(self)),
            final(self).answers == old(self).answers,
            final(self).model() == cursor_up_m(old(self).model()),
    {
        if self.cursor_idx > 0 {
            self.cursor_idx = self.cursor_idx - 1;
            self.ensure_visible_options();
        }
    }

    /// Moves to the choice below, staying at the last.
    pub fn cursor_down(&mut self)
        ensures
            keeps_setup(*old(self), *final(self)),
            final(self).answers == old(self).answers,
            final(self).model() == cursor_down_m(old(self).qs(), old(self).model()),
    {
        if self.active_tab < self.questions.len() {
            let len = self.questions[self.active_tab].option_count();
            assert(qdef_model(self.questions@[self.active_tab as int]) == self.qs()[self.active_tab as int]);
            if len > 0 && self.cursor_idx < len - 1 {
                self.cursor_idx = self.cursor_idx + 1;
                self.ensure_visible_options();
            }
        }
    }

    /// Moves to the previous tab.
    pub fn tab_left(&mut self)
        ensures
            keeps_setup(*old(self), *final(self)),
            final(self).answers == old(self).answers,
            final(self).model() == tab_left_m(old(self).model()),
    {
        if self.active_tab > 0 {
            self.active_tab = self.active_tab - 1;
            self.cursor_idx = 0;
            self.scroll_offset = 0;
            self.custom_input = String::new();
            self.editing_custom = false;
        }
    }

    /// Moves to the next tab (the one after the last question confirms).
    pub fn tab_right(&mut self)
        ensures
            keeps_setup(*old(self), *final(self)),
            final(self).answers == old(self).answers,
            final(self).model() == advance_m(old(self).qs(), old(self).model()),
    {
        self.advance_tab();
    }

    fn set_answers(&mut self, tab: usize, a: Vec<String>)
        requires
            tab < old(self).answers@.len(),
        ensures
            keeps_setup(*old(self), *final(self)),
            final(self).answers@.len() == old(self).answers@.len(),
            final(self).model() == (QModel {
                answers: old(self).model().answers.update(tab as int, views(a@)),
                ..old(self).model()
            }),
    {
        let ghost before = self.answers@;
        self.answers.set(tab, a);
        proof {
            assert(answers_model(self.answers@) =~= answers_model(before).update(tab as int, views(a@)));
        }
    }

    /// Picks the choice under the cursor (see `select_m`) and tells whether to move on.
    pub fn select_current(&mut self) -> (adv: bool)
        requires
            old(self).wf(),
        ensures
            keeps_setup(*old(self), *final(self)),
            final(self).wf(),
            (final(self).model(), adv) == select_m(old(self).qs(), old(self).model()),
    {
        let ghost qs = self.qs();
        if self.active_tab >= self.questions.len() {
            return false;
        }
        let tab = self.active_tab;
        assert(qs[tab as int] == qdef_model(self.questions@[tab as int]));
        if self.cursor_idx >= self.questions[tab].options.len() {
            return false;
        }
        if self.questions[tab].is_custom_answer_idx(self.cursor_idx) {
            if self.editing_custom {
                if !str_is_blank(self.custom_input.as_str()) {
                    let mut a: Vec<String> = Vec::new();
                    a.push(copy_string(&self.custom_input));
                    assert(views(a@) =~= seq![self.custom_input@]);
                    self.set_answers(tab, a);
                    return true;
                }
                return false;
            }
            self.editing_custom = true;
            self.custom_input = String::new();
            return false;
        }
        let label = copy_string(&self.questions[tab].options[self.cursor_idx].label);
        assert(label@ == qs[tab as int].options[self.cursor_idx as int]);
        match &self.questions[tab].question_type {
            QuestionType::Select => {
                let mut a: Vec<String> = Vec::new();
                a.push(label);
                assert(views(a@) =~= seq![qs[tab as int].options[self.cursor_idx as int]]);
                self.set_answers(tab, a);
                true
            },
            QuestionType::MultiSelect => {
                let a = toggle_label(&self.answers[tab], label);
                self.set_answers(tab, a);
                false
            },
            QuestionType::Text { .. } => false,
        }
    }

    fn handle_number(&mut self, num: usize) -> (r: Option<QuestionResponse>)
        requires
            old(self).wf(),
        ensures
            final(self).wf(),
            stepped(*old(self), *final(self), r, number_m(old(self).qs(), old(self).model(), num as int)),
    {
        let idx = if num >= 1 {
            num - 1
        } else {
            0
        };
        if self.active_tab >= self.questions.len() {
            return None;
        }
        assert(self.qs()[self.active_tab as int] == qdef_model(self.questions@[self.active_tab as int]));
        if idx >= self.questions[self.active_tab].option_count() {
            return None;
        }
        self.cursor_idx = idx;
        let should_advance = self.select_current();
        if should_advance {
            if self.is_last_question() {
                return Some(self.submit());
            }
            self.advance_tab();
        }
        None
    }

    fn pick_and_move_on(&mut self) -> (r: Option<QuestionResponse>)
        requires
            old(self).wf(),
            old(self).active_tab < old(self).questions@.len(),
            old(self).cursor_idx < old(self).questions@[old(self).active_tab as int].options@.len(),
        ensures
            final(self).wf(),
            stepped(*old(self), *final(self), r, pick_and_move_on(old(self).qs(), old(self).model())),
    {
        assert(self.qs()[self.active_tab as int] == qdef_model(self.questions@[self.active_tab as int]));
        if self.questions[self.active_tab].is_custom_answer_idx(self.cursor_idx) {
            self.editing_custom = true;
            self.custom_input = String::new();
            return None;
        }
        let _ = self.select_current();
        if self.is_last_question() {
            return Some(self.submit());
        }
        self.advance_tab();
        None
    }

    fn handle_enter(&mut self) -> (r: Option<QuestionResponse>)
        requires
            old(self).wf(),
        ensures
            final(self).wf(),
            stepped(*old(self), *final(self), r, enter_m(old(self).qs(), old(self).model())),
    {
        if self.active_tab >= self.questions.len() {
            return None;
        }
        let tab = self.active_tab;
        assert(self.qs()[tab as int] == qdef_model(self.questions@[tab as int]));
        let cursor = self.cursor_idx;
        let n_opts = self.questions[tab].options.len();
        match &self.questions[tab].question_type {
            QuestionType::Text { .. } => {
                if n_opts == 0 {
                    let mut a: Vec<String> = Vec::new();
                    a.push(String::from_str("[text_input]"));
                    assert(views(a@) =~= seq!["[text_input]"@]);
                    self.set_answers(tab, a);
                } else if cursor < n_opts {
                    return self.pick_and_move_on();
                }
            },
            QuestionType::Select => {
                if cursor < n_opts {
                    return self.pick_and_move_on();
                }
            },
            QuestionType::MultiSelect => {
                if cursor < n_opts {
                    if self.questions[tab].is_custom_answer_idx(cursor) {
                        self.editing_custom = true;
                        self.custom_input = String::new();
                    } else {
                        self.select_current();
                        if self.is_last_question() {
                            self.active_tab = self.questions.len();
                            self.cursor_idx = 0;
                        } else {
                            self.advance_tab();
                        }
                    }
                }
            },
        }
        None
    }

    fn handle_space(&mut self) -> (r: Option<QuestionResponse>)
        requires
            old(self).wf(),
        ensures
            final(self).wf(),
            stepped(*old(self), *final(self), r, space_m(old(self).qs(), old(self).model())),
    {
        if self.active_tab >= self.questions.len() {
            return None;
        }
        let tab = self.active_tab;
        assert(self.qs()[tab as int] == qdef_model(self.questions@[tab as int]));
        let cursor = self.cursor_idx;
        let n_opts = self.questions[tab].options.len();
        match &self.questions[tab].question_type {
            QuestionType::MultiSelect => {
                if cursor < n_opts && !self.questions[tab].is_custom_answer_idx(cursor) {
                    self.select_current();
                }
            },
            QuestionType::Select => {
                if cursor < n_opts {
                    return self.pick_and_move_on();
                }
            },
            QuestionType::Text { .. } => {},
        }
        None
    }

    fn handle_esc(&mut self) -> (r: Option<QuestionResponse>)
        ensures
            r matches Some(resp) && resp.answer@.len() == 0 && resp.cancelled,
            handed_over(*old(self), *final(self), Seq::empty()),
            is_closed(*final(self)),
            final(self).wf(),
    {
        let out = match &self.answer_tx {
            Some(_) => Some(String::new()),
            None => None,
        };
        self.hand_over(out);
        self.close();
        Some(QuestionResponse { answer: String::new(), cancelled: true })
    }

    fn handle_custom_editing_key(&mut self, code: KeyCode) -> (r: Option<QuestionResponse>)
        requires
            old(self).wf(),
            old(self).active_tab < old(self).questions@.len(),
        ensures
            final(self).wf(),
            stepped(*old(self), *final(self), r, editing_m(old(self).qs(), old(self).model(), code)),
    {
        match code {
            KeyCode::Enter => {
                if !str_is_blank(self.custom_input.as_str()) {
                    let mut a: Vec<String> = Vec::new();
                    a.push(copy_string(&self.custom_input));
                    assert(views(a@) =~= seq![self.custom_input@]);
                    let tab = self.active_tab;
                    self.set_answers(tab, a);
                    self.editing_custom = false;
                    if self.is_last_question() {
                        return Some(self.submit());
                    }
                    self.advance_tab();
                }
                None
            },
            KeyCode::Esc => {
                self.editing_custom = false;
                self.custom_input = String::new();
                None
            },
            KeyCode::Char(c) => {
                push_char(&mut self.custom_input, c);
                None
            },
            KeyCode::Backspace => {
                let _ = pop_char(&mut self.custom_input);
                None
            },
            KeyCode::Left => {
                self.tab_left();
                None
            },
            KeyCode::Right => {
                if self.active_tab < self.questions.len() {
                    self.active_tab = self.active_tab + 1;
                    self.cursor_idx = 0;
                    self.editing_custom = false;
                    self.custom_input = String::new();
                }
                None
            },
            _ => None,
        }
    }

    /// Handles a key on the confirmation tab: Enter submits, Esc dismisses, Left goes back.
    fn handle_confirm_tab_key(&mut self, code: KeyCode) -> (r: Option<QuestionResponse>)
        requires
            old(self).wf(),
            old(self).active_tab >= old(self).questions@.len(),
        ensures
            final(self).wf(),
            stepped(*old(self), *final(self), r, key_m(old(self).qs(), old(self).model(), code)),
    {
        match code {
            KeyCode::Enter => Some(self.submit()),
            KeyCode::Esc => self.handle_esc(),
            KeyCode::Left => {
                self.tab_left();
                None
            },
            _ => None,
        }
    }

    /// Handles a key (see `key_m`): on the confirmation tab Enter submits, Esc dismisses and
    /// Left goes back; while typing an answer, keys edit it; on a question tab the arrows
    /// move, Enter and space pick, digits pick by number and Esc dismisses.
    pub fn handle_key(&mut self, code: KeyCode) -> (r: Option<QuestionResponse>)
        requires
            old(self).wf(),
        ensures
            final(self).wf(),
            stepped(*old(self), *final(self), r, key_m(old(self).qs(), old(self).model(), code)),
    {
        if self.active_tab >= self.questions.len() {
            return self.handle_confirm_tab_key(code);
        }
        if self.editing_custom {
            return self.handle_custom_editing_key(code);
        }
        match code {
            KeyCode::Up => {
                self.cursor_up();
                None
            },
            KeyCode::Down => {
                self.cursor_down();
                None
            },
            KeyCode::Left => {
                self.tab_left();
                None
            },
            KeyCode::Right => {
                self.tab_right();
                None
            },
            KeyCode::Enter => self.handle_enter(),
            KeyCode::Char(c) => {
                if c == ' ' {
                    self.handle_space()
                } else if '1' <= c && c <= '9' {
                    match char_to_digit(c) {
                        Some(num) => self.handle_number(num as usize),
                        None => None,
                    }
                } else {
                    None
                }
            },
            KeyCode::Esc => self.handle_esc(),
            _ => None,
        }
    }
}

/// A first position found in a prefix is the first position in the whole list.
pub proof fn lemma_first_pos_prefix(l: Seq<Seq<char>>, x: Seq<char>, k: int)
    requires
        0 <= k <= l.len(),
        first_pos(l.take(k), x) is Some,
    ensures
        first_pos(l, x) == first_pos(l.take(k), x),
    decreases l.len() - k,
{
    if k < l.len() {
        assert(l.take(k + 1).drop_last() =~= l.take(k));
        lemma_first_pos_prefix(l, x, k + 1);
    } else {
        assert(l.take(k) =~= l);
    }
}

/// Toggling a label that is not there adds it, and toggling it again takes it out: the list
/// is as it was.
pub proof fn lemma_toggle_twice(l: Seq<Seq<char>>, x: Seq<char>)
    requires
        first_pos(l, x) is None,
    ensures
        toggled(l, x) == l.push(x),
        toggled(toggled(l, x), x) == l,
{
    let t = l.push(x);
    assert(t.drop_last() =~= l);
    assert(t.remove(l.len() as int) =~= l);
}

/// Picking an unpicked choice of a multiple-choice question twice, on the same row, leaves
/// the answers as they were, and the prompt stays on the question both times.
pub proof fn lemma_multi_select_twice(qs: Seq<QDefModel>, m: QModel)
    requires
        m.answers.len() == qs.len(),
        0 <= m.tab < qs.len(),
        0 <= m.cursor < qs[m.tab].options.len(),
        !is_custom(qs[m.tab], m.cursor),
        qs[m.tab].kind is MultiSelect,
        first_pos(m.answers[m.tab], qs[m.tab].options[m.cursor]) is None,
    ensures
        !select_m(qs, m).1,
        select_m(qs, m).0.answers[m.tab] == m.answers[m.tab].push(qs[m.tab].options[m.cursor]),
        !select_m(qs, select_m(qs, m).0).1,
        select_m(qs, select_m(qs, m).0).0 == m,
{
    let label = qs[m.tab].options[m.cursor];
    lemma_toggle_twice(m.answers[m.tab], label);
    let m1 = select_m(qs, m).0;
    assert(m1.answers[m.tab] == m.answers[m.tab].push(label));
    assert(m1.answers.update(m.tab, toggled(m1.answers[m.tab], label)) =~= m.answers);
}

/// `l` with `x` toggled (see `toggled`).
fn toggle_label(l: &Vec<String>, x: String) -> (r: Vec<String>)
    ensures
        views(r@) == toggled(views(l@), x@),
{
    let ghost ls = views(l@);
    let mut p: usize = 0;
    while p < l.len() && !str_eq(l[p].as_str(), x.as_str())
        invariant
            p <= l@.len(),
            ls == views(l@),
            first_pos(ls.take(p as int), x@) is None,
        decreases l@.len() - p,
    {
        assert(ls.take(p + 1).drop_last() =~= ls.take(p as int));
        p = p + 1;
    }
    proof {
        if p < l@.len() {
            assert(ls.take(p + 1).drop_last() =~= ls.take(p as int));
            lemma_first_pos_prefix(ls, x@, p + 1);
        } else {
            assert(ls.take(p as int) =~= ls);
        }
    }
    let mut r: Vec<String> = Vec::new();
    let mut i: usize = 0;
    while i < l.len()
        invariant
            i <= l@.len(),
            ls == views(l@),
            p <= l@.len(),
            views(r@) == if i <= p {
                ls.take(i as int)
            } else {
                ls.take(p as int) + ls.subrange(p + 1, i as int)
            },
        decreases l@.len() - i,
    {
        if i != p {
            let ghost before = r@;
            r.push(copy_string(&l[i]));
            assert(views(r@) =~= views(before).push(ls[i as int]));
            if i < p {
                assert(ls.take(i + 1) =~= ls.take(i as int).push(ls[i as int]));
            } else {
                assert(ls.take(p as int) + ls.subrange(p + 1, i + 1) =~= (ls.take(p as int)
                    + ls.subrange(p + 1, i as int)).push(ls[i as int]));
            }
        } else {
            assert(ls.take(p as int) + ls.subrange(p + 1, i + 1) =~= ls.take(p as int));
        }
        i = i + 1;
    }
    if p == l.len() {
        let ghost before = r@;
        assert(ls.take(l@.len() as int) =~= ls);
        r.push(x);
        assert(views(r@) =~= views(before).push(x@));
    } else {
        assert(ls.take(p as int) + ls.subrange(p + 1, l@.len() as int) =~= ls.remove(p as int));
    }
    r
}


/// The rows the prompt needs: 7, plus the shown options (at most 10) and one more row (two
/// while typing an answer) on a question tab, or two rows per question and two more on
/// the confirmation tab; kept between 12 and 30.
pub open spec fn content_rows(tab: nat, n_questions: nat, n_options: nat, editing: bool) -> int {
    let opts: int = if tab < n_questions {
        let visible: int = if n_options < 10 { n_options as int } else { 10 };
        if editing { visible + 2 } else { visible + 1 }
    } else {
        0
    };
    let confirm: int = if tab >= n_questions && n_questions > 0 { (n_questions as u16) * 2 + 2 } else { 0 };
    let h: int = 7 + if opts > confirm { opts } else { confirm };
    if h < 12 { 12 } else if h > 30 { 30 } else { h }
}

/// The rows the prompt needs (see `content_rows`).
pub fn content_height(state: &QuestionPromptState) -> (h: u16)
    requires
        state.active_tab >= state.questions@.len() && state.questions@.len() > 0 ==> (state.questions@.len()
            as u16) * 2 + 9 <= u16::MAX,
    ensures
        h == content_rows(
            state.active_tab as nat,
            state.questions@.len(),
            if state.active_tab < state.questions@.len() { state.questions@[state.active_tab as int].options@.len() } else { 0 },
            state.editing_custom,
        ),
{
    let base: u16 = 7;
    let opts_h: u16 = if state.active_tab < state.questions.len() {
        let n = state.questions[state.active_tab].options.len();
        let visible: u16 = if n < 10 { n as u16 } else { 10 };
        if state.editing_custom { visible + 2 } else { visible + 1 }
    } else {
        0
    };
    let confirm_h: u16 = if state.active_tab >= state.questions.len() && state.questions.len() > 0 {
        (state.questions.len() as u16) * 2 + 2
    } else {
        0
    };
    let h = base + if opts_h > confirm_h { opts_h } else { confirm_h };
    if h < 12 {
        12
    } else if h > 30 {
        30
    } else {
        h
    }
}
} // verus!
