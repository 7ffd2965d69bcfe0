//! The message actions dialog: revert, copy or fork at a message, chosen from a short list
//! that typing filters.
use vstd::prelude::*;
use crate::keys::KeyCode;
use crate::text::{
    byte_len, chars_of, char_is_control, char_is_whitespace, has_prefix, is_control_char,
    is_white_space, lowercase_of, matches_at, pop_char, push_char, seq_starts_with, str_byte_len,
    to_lowercase,
};

verus! {

/// What can be done at a message.
#[derive(Debug, Clone, Copy, PartialEq, Eq, Structural)]
pub enum MessageAction {
    Revert,
    Copy,
    Fork,
}

/// One choice of the dialog.
pub struct DialogSelectOption {
    pub title: String,
    pub value: MessageAction,
    pub description: String,
}

/// The state of the dialog.
pub struct MessageActionDialogState {
    pub open: bool,
    pub message_id: usize,
    pub message_content: String,
    pub selected: usize,
    pub filter: String,
    pub options: Vec<DialogSelectOption>,
}

/// Some white-space-separated word of `d` starts with `p`.
pub open spec fn word_starts_with(d: Seq<char>, p: Seq<char>) -> bool {
    &&& forall|k: int| 0 <= k < p.len() ==> !is_white_space(#[trigger] p[k])
    &&& exists|i: int|
        0 <= i < d.len() && (i == 0 || is_white_space(d[i - 1])) && !is_white_space(d[i])
            && #[trigger] has_prefix(d.skip(i), p)
}

/// An option is kept for filter `f`: with no filter, always; else when its lower-cased
/// title starts with the lower-cased filter, or, for a filter of at least three bytes, when a
/// word of its lower-cased description does.
pub open spec fn option_kept(o: DialogSelectOption, f: Seq<char>) -> bool {
    let lower = lowercase_of(f);
    ||| f.len() == 0
    ||| has_prefix(lowercase_of(o.title@), lower)
    ||| (byte_len(lower) >= 3 && word_starts_with(lowercase_of(o.description@), lower))
}

/// The positions of the options kept for filter `f`, in order.
pub open spec fn kept_positions(os: Seq<DialogSelectOption>, f: Seq<char>) -> Seq<int>
    decreases os.len(),
{
    if os.len() == 0 {
        Seq::empty()
    } else if option_kept(os.last(), f) {
        kept_positions(os.drop_last(), f).push(os.len() - 1)
    } else {
        kept_positions(os.drop_last(), f)
    }
}

fn word_starts_with_exec(d: &Vec<char>, p: &Vec<char>) -> (b: bool)
    ensures
        b == word_starts_with(d@, p@),
{
    let mut k: usize = 0;
    while k < p.len()
        invariant
            k <= p@.len(),
            forall|j: int| 0 <= j < k ==> !is_white_space(#[trigger] p@[j]),
        decreases p@.len() - k,
    {
        if char_is_whitespace(p[k]) {
            return false;
        }
        k = k + 1;
    }
    let mut i: usize = 0;
    while i < d.len()
        invariant
            i <= d@.len(),
            forall|j: int| 0 <= j < p@.len() ==> !is_white_space(#[trigger] p@[j]),
            forall|j: int|
                0 <= j < i ==> !((j == 0 || is_white_space(d@[j - 1])) && !is_white_space(d@[j])
                    && #[trigger] has_prefix(d@.skip(j), p@)),
        decreases d@.len() - i,
    {
        let start = (i == 0 || char_is_whitespace(d[i - 1])) && !char_is_whitespace(d[i]);
        if start && p.len() <= d.len() - i {
            if matches_at(d, p, i) {
                assert(d@.subrange(i as int, i + p@.len()) =~= d@.skip(i as int).take(p@.len() as int));
                assert(has_prefix(d@.skip(i as int), p@));
                return true;
            }
            assert(d@.subrange(i as int, i + p@.len()) =~= d@.skip(i as int).take(p@.len() as int));
        }
        i = i + 1;
    }
    false
}

fn option_kept_exec(o: &DialogSelectOption, f: &str) -> (b: bool)
    ensures
        b == option_kept(*o, f@),
{
    if f.unicode_len() == 0 {
        return true;
    }
    let lower = to_lowercase(f);
    let lv = chars_of(lower.as_str());
    let tl = to_lowercase(o.title.as_str());
    let tv = chars_of(tl.as_str());
    if seq_starts_with(&tv, &lv) {
        return true;
    }
    if str_byte_len(lower.as_str()) >= 3 {
        let dl = to_lowercase(o.description.as_str());
        let dv = chars_of(dl.as_str());
        word_starts_with_exec(&dv, &lv)
    } else {
        false
    }
}

/// The option `(title, action, description)` of a list.
pub open spec fn option_model(o: DialogSelectOption) -> (Seq<char>, MessageAction, Seq<char>) {
    (o.title@, o.value, o.description@)
}

/// The options of the dialog, in order.
pub open spec fn default_options() -> Seq<(Seq<char>, MessageAction, Seq<char>)> {
    seq![
        ("Revert"@, MessageAction::Revert, "undo messages and file changes"@),
        ("Copy"@, MessageAction::Copy, "message text to clipboard"@),
        ("Fork"@, MessageAction::Fork, "create a new session from here"@),
    ]
}

/// What a key does: the action chosen (if any) and whether the dialog closes, with the new
/// selection and filter.
pub open spec fn action_key(
    os: Seq<DialogSelectOption>,
    selected: usize,
    filter: Seq<char>,
    key: KeyCode,
) -> (Option<MessageAction>, bool, usize, Seq<char>) {
    let kept = kept_positions(os, filter);
    match key {
        KeyCode::Esc | KeyCode::Char('q') => (None, true, selected, filter),
        KeyCode::Up => (None, false, if selected > 0 { (selected - 1) as usize } else { 0 }, filter),
        KeyCode::Down => (
            None,
            false,
            if kept.len() > 0 && selected < kept.len() - 1 { (selected + 1) as usize } else { selected },
            filter,
        ),
        KeyCode::Enter => if selected < kept.len() {
            (Some(os[kept[selected as int]].value), true, selected, filter)
        } else {
            (None, false, selected, filter)
        },
        KeyCode::Char('1') => (Some(MessageAction::Revert), true, selected, filter),
        KeyCode::Char('2') => (Some(MessageAction::Copy), true, selected, filter),
        KeyCode::Char('3') => (Some(MessageAction::Fork), true, selected, filter),
        KeyCode::Backspace => (
            None,
            false,
            0,
            if filter.len() > 0 { filter.drop_last() } else { filter },
        ),
        KeyCode::Char(c) => if !is_control_char(c) {
            (None, false, 0, filter.push(c))
        } else {
            (None, false, selected, filter)
        },
        _ => (None, false, selected, filter),
    }
}

impl MessageActionDialogState {
    /// A closed dialog with the three actions.
    pub fn new() -> (s: Self)
        ensures
            !s.open && s.message_id == 0 && s.message_content@.len() == 0,
            s.selected == 0 && s.filter@.len() == 0,
            s.options@.map_values(|o: DialogSelectOption| option_model(o)) == default_options(),
    {
        let mut options: Vec<DialogSelectOption> = Vec::new();
        options.push(DialogSelectOption {
            title: String::from_str("Revert"),
            value: MessageAction::Revert,
            description: String::from_str("undo messages and file changes"),
        });
        options.push(DialogSelectOption {
            title: String::from_str("Copy"),
            value: MessageAction::Copy,
            description: String::from_str("message text to clipboard"),
        });
        options.push(DialogSelectOption {
            title: String::from_str("Fork"),
            value: MessageAction::Fork,
            description: String::from_str("create a new session from here"),
        });
        assert(options@.map_values(|o: DialogSelectOption| option_model(o)) =~= default_options());
        MessageActionDialogState {
            open: false,
            message_id: 0,
            message_content: String::new(),
            selected: 0,
            filter: String::new(),
            options,
        }
    }

    /// The options kept by the filter, in order.
    pub fn filtered_options(&self) -> (r: Vec<&DialogSelectOption>)
        ensures
            r@.len() == kept_positions(self.options@, self.filter@).len(),
            forall|i: int|
                0 <= i < r@.len() ==> *#[trigger] r@[i] == self.options@[kept_positions(
                    self.options@,
                    self.filter@,
                )[i]],
    {
        let ghost os = self.options@;
        let mut r: Vec<&DialogSelectOption> = Vec::new();
        let mut i: usize = 0;
        while i < self.options.len()
            invariant
                i <= self.options@.len(),
                os == self.options@,
                r@.len() == kept_positions(os.take(i as int), self.filter@).len(),
                forall|j: int| 0 <= j < kept_positions(os.take(i as int), self.filter@).len() ==> 0 <= #[trigger] kept_positions(os.take(i as int), self.filter@)[j] < i,
                forall|j: int|
                    0 <= j < r@.len() ==> *#[trigger] r@[j] == os[kept_positions(os.take(i as int), self.filter@)[j]],
            decreases self.options@.len() - i,
        {
            assert(os.take(i + 1).drop_last() =~= os.take(i as int));
            assert(os.take(i + 1).last() == os[i as int]);
            if option_kept_exec(&self.options[i], self.filter.as_str()) {
                r.push(&self.options[i]);
            }
            i = i + 1;
        }
        assert(os.take(os.len() as int) =~= os);
        r
    }

    /// Opens the dialog on message `message_id`, unfiltered, on the first option.
    pub fn open(&mut self, message_id: usize, content: String)
        ensures
            final(self).open && final(self).message_id == message_id,
            final(self).message_content == content,
            final(self).selected == 0 && final(self).filter@.len() == 0,
            final(self).options == old(self).options,
    {
        self.open = true;
        self.message_id = message_id;
        self.message_content = content;
        self.selected = 0;
        self.filter = String::new();
    }

    /// Closes the dialog.
    pub fn close(&mut self)
        ensures
            !final(self).open,
            final(self).selected == old(self).selected && final(self).filter == old(self).filter,
            final(self).options == old(self).options && final(self).message_id == old(self).message_id,
    {
        self.open = false;
    }

    /// Handles a key (see `action_key`): Esc or `q` closes; the arrows move among the kept
    /// options; Enter or a digit chooses; typing filters.
    pub fn handle_key(&mut self, key: KeyCode) -> (r: Option<MessageAction>)
        ensures
            ({
                let (act, closes, sel, filter) = action_key(old(self).options@, old(self).selected, old(self).filter@, key);
                &&& r == act
                &&& final(self).open == (old(self).open && !closes)
                &&& final(self).selected == sel
                &&& final(self).filter@ == filter
            }),
            final(self).options == old(self).options,
            final(self).message_id == old(self).message_id,
    {
        match key {
            KeyCode::Esc | KeyCode::Char('q') => {
                self.close();
                None
            },
            KeyCode::Up => {
                if self.selected > 0 {
                    self.selected = self.selected - 1;
                }
                None
            },
            KeyCode::Down => {
                let filtered = self.filtered_options();
                if filtered.len() > 0 && self.selected < filtered.len() - 1 {
                    self.selected = self.selected + 1;
                }
                None
            },
            KeyCode::Enter => {
                let filtered = self.filtered_options();
                if self.selected < filtered.len() {
                    let action = filtered[self.selected].value;
                    self.close();
                    Some(action)
                } else {
                    None
                }
            },
            KeyCode::Char('1') => {
                self.close();
                Some(MessageAction::Revert)
            },
            KeyCode::Char('2') => {
                self.close();
                Some(MessageAction::Copy)
            },
            KeyCode::Char('3') => {
                self.close();
                Some(MessageAction::Fork)
            },
            KeyCode::Backspace => {
                let _ = pop_char(&mut self.filter);
                self.selected = 0;
                None
            },
            KeyCode::Char(c) => {
                if !char_is_control(c) {
                    push_char(&mut self.filter, c);
                    self.selected = 0;
                }
                None
            },
            _ => None,
        }
    }
}

} // verus!
