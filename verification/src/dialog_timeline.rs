//! The timeline dialog: one row per message of the conversation, to jump to one of them.
use vstd::prelude::*;
use crate::keys::{is_ctrl_char, KeyCode, KeyEvent};
use crate::messages::{text_of, Message, MessagePart, MessageRole};
use crate::text::{chars_of, copy_string, string_of_range, concat, decimal, push_decimal, first_chars, take_chars, str_eq};
use crate::dialog_view::{shown_count, view_frame, row_model, DialogView, RowModel, ViewModel, ViewRow, ViewTone};

verus! {

/// One row of the timeline.
#[derive(Debug, Clone)]
pub struct TimelineEntry {
    /// The message's position in the conversation.
    pub idx: usize,
    pub role: String,
    pub agent: String,
    /// The first 80 characters of the message's text.
    pub preview: String,
    pub tool_calls: usize,
    pub has_thinking: bool,
}

/// What a key asks of the caller.
#[derive(Debug)]
pub enum TimelineAction {
    Nothing,
    Cancel,
    Jump(usize),
}

/// The number of tool calls among `parts`.
pub open spec fn tool_call_count(parts: Seq<MessagePart>) -> nat
    decreases parts.len(),
{
    if parts.len() == 0 {
        0
    } else {
        tool_call_count(parts.drop_last()) + if parts.last() is ToolCall { 1nat } else { 0nat }
    }
}

/// The row of message `m` at position `idx`: its role (with the agent of an assistant
/// message or the name of a tool), the first 80 characters of its text, its number of tool
/// calls and whether it holds thinking.
pub open spec fn entry_for(idx: int, m: Message, e: TimelineEntry) -> bool {
    &&& e.idx == idx
    &&& e.role@ == match m.role {
        MessageRole::User => "User"@,
        MessageRole::Assistant => "Assistant"@,
        MessageRole::Tool { .. } => "Tool"@,
    }
    &&& e.agent@ == match m.role {
        MessageRole::User => Seq::<char>::empty(),
        MessageRole::Assistant => m.agent@,
        MessageRole::Tool { name } => name@,
    }
    &&& e.preview@ == text_of(m.parts@).take(if text_of(m.parts@).len() < 80 {
        text_of(m.parts@).len() as int
    } else {
        80
    })
    &&& e.tool_calls == tool_call_count(m.parts@)
    &&& e.has_thinking == exists|k: int| 0 <= k < m.parts@.len() && #[trigger] m.parts@[k] is Thinking
}

/// The rows for a conversation, one per message in order.
pub fn build_entries(messages: &Vec<Message>) -> (r: Vec<TimelineEntry>)
    ensures
        r@.len() == messages@.len(),
        forall|i: int| 0 <= i < r@.len() ==> entry_for(i, messages@[i], #[trigger] r@[i]),
{
    let mut r: Vec<TimelineEntry> = Vec::new();
    let mut i: usize = 0;
    while i < messages.len()
        invariant
            i <= messages@.len(),
            r@.len() == i,
            forall|k: int| 0 <= k < i ==> entry_for(k, messages@[k], #[trigger] r@[k]),
        decreases messages@.len() - i,
    {
        let m = &messages[i];
        let (role, agent) = match &m.role {
            MessageRole::User => (String::from_str("User"), String::new()),
            MessageRole::Assistant => (String::from_str("Assistant"), copy_string(&m.agent)),
            MessageRole::Tool { name } => (String::from_str("Tool"), copy_string(name)),
        };
        let text = m.full_text();
        let v = chars_of(text.as_str());
        let n = if v.len() < 80 {
            v.len()
        } else {
            80
        };
        let preview = string_of_range(&v, 0, n);
        assert(v@.subrange(0, n as int) =~= v@.take(n as int));
        let mut tool_calls: usize = 0;
        let mut has_thinking = false;
        let mut k: usize = 0;
        while k < m.parts.len()
            invariant
                k <= m.parts@.len(),
                tool_calls == tool_call_count(m.parts@.take(k as int)),
                tool_calls <= k,
                has_thinking == exists|j: int| 0 <= j < k && #[trigger] m.parts@[j] is Thinking,
            decreases m.parts@.len() - k,
        {
            assert(m.parts@.take(k + 1).drop_last() =~= m.parts@.take(k as int));
            match &m.parts[k] {
                MessagePart::ToolCall { .. } => {
                    tool_calls = tool_calls + 1;
                },
                MessagePart::Thinking { .. } => {
                    has_thinking = true;
                },
                _ => {},
            }
            k = k + 1;
        }
        assert(m.parts@.take(m.parts@.len() as int) =~= m.parts@);
        r.push(TimelineEntry { idx: i, role, agent, preview, tool_calls, has_thinking });
        i = i + 1;
    }
    r
}

/// The state of the timeline dialog.
#[derive(Debug, Clone)]
pub struct TimelineDialogState {
    pub open: bool,
    pub entries: Vec<TimelineEntry>,
    pub selected: usize,
    pub scroll: usize,
}

/// The last row, or 0 with no rows.
pub open spec fn last_row(len: nat) -> usize {
    if len > 0 { (len - 1) as usize } else { 0 }
}

impl TimelineDialogState {
    /// A closed dialog with no rows.
    pub fn new() -> (s: Self)
        ensures
            !s.open && s.entries@.len() == 0 && s.selected == 0 && s.scroll == 0,
    {
        TimelineDialogState { open: false, entries: Vec::new(), selected: 0, scroll: 0 }
    }

    /// Opens the dialog on the rows of `messages`, at the top.
    pub fn open(&mut self, messages: &Vec<Message>)
        ensures
            final(self).open && final(self).selected == 0 && final(self).scroll == 0,
            final(self).entries@.len() == messages@.len(),
            forall|i: int| 0 <= i < messages@.len() ==> entry_for(i, messages@[i], #[trigger] final(self).entries@[i]),
    {
        self.entries = build_entries(messages);
        self.selected = 0;
        self.scroll = 0;
        self.open = true;
    }

    /// Opens the dialog on the given rows, at the top.
    pub fn open_with_entries(&mut self, entries: Vec<TimelineEntry>)
        ensures
            final(self).open && final(self).selected == 0 && final(self).scroll == 0,
            final(self).entries == entries,
    {
        self.entries = entries;
        self.selected = 0;
        self.scroll = 0;
        self.open = true;
    }

    /// Closes the dialog.
    pub fn close(&mut self)
        ensures
            !final(self).open,
            final(self).entries == old(self).entries && final(self).selected == old(self).selected,
            final(self).scroll == old(self).scroll,
    {
        self.open = false;
    }

    /// Handles a key: Esc or Ctrl+C cancels; Enter jumps to the selected message; the arrows,
    /// page keys (ten rows), Home and End move the selection within the rows.
    pub fn handle_key(&mut self, key: KeyEvent) -> (a: TimelineAction)
        ensures
            ({
                let len = old(self).entries@.len();
                let sel = old(self).selected;
                if key.code == KeyCode::Esc || key.is_ctrl_char('c') {
                    !final(self).open && a is Cancel && final(self).selected == sel
                } else if key.code == KeyCode::Enter {
                    &&& !final(self).open
                    &&& sel < len ==> (a matches TimelineAction::Jump(idx) && idx == old(self).entries@[sel as int].idx)
                    &&& sel >= len ==> a is Cancel
                } else {
                    &&& a is Nothing
                    &&& final(self).open == old(self).open
                    &&& final(self).selected == match key.code {
                        KeyCode::Up => if sel > 0 { (sel - 1) as usize } else { 0 },
                        KeyCode::Down => if sel < last_row(len) { (sel + 1) as usize } else { sel },
                        KeyCode::PageUp => if sel >= 10 { (sel - 10) as usize } else { 0 },
                        KeyCode::PageDown => if sel + 10 <= last_row(len) { (sel + 10) as usize } else { last_row(len) },
                        KeyCode::Home => 0,
                        KeyCode::End => last_row(len),
                        _ => sel,
                    }
                }
            }),
            final(self).entries == old(self).entries,
    {
        if key.code == KeyCode::Esc || is_ctrl_char(&key, 'c') {
            self.close();
            return TimelineAction::Cancel;
        }
        let last = if self.entries.len() > 0 {
            self.entries.len() - 1
        } else {
            0
        };
        match key.code {
            KeyCode::Enter => {
                let selected_idx = if self.selected < self.entries.len() {
                    Some(self.entries[self.selected].idx)
                } else {
                    None
                };
                self.close();
                match selected_idx {
                    Some(idx) => TimelineAction::Jump(idx),
                    None => TimelineAction::Cancel,
                }
            },
            KeyCode::Up => {
                if self.selected > 0 {
                    self.selected = self.selected - 1;
                }
                TimelineAction::Nothing
            },
            KeyCode::Down => {
                if self.selected < last {
                    self.selected = self.selected + 1;
                }
                TimelineAction::Nothing
            },
            KeyCode::PageUp => {
                self.selected = if self.selected >= 10 {
                    self.selected - 10
                } else {
                    0
                };
                TimelineAction::Nothing
            },
            KeyCode::PageDown => {
                self.selected = if self.selected <= last && last - self.selected >= 10 {
                    self.selected + 10
                } else {
                    last
                };
                TimelineAction::Nothing
            },
            KeyCode::Home => {
                self.selected = 0;
                TimelineAction::Nothing
            },
            KeyCode::End => {
                self.selected = last;
                TimelineAction::Nothing
            },
            _ => TimelineAction::Nothing,
        }
    }
}


// ---------------------------------------------------------------------------
// What the dialog shows
// ---------------------------------------------------------------------------

/// The first entry in view for `rows` rows: the selection when above the window at
/// `scroll`, the position putting it on the last row when below the window, else `scroll`.
pub open spec fn timeline_scroll(selected: usize, scroll: usize, rows: usize) -> usize {
    if selected < scroll {
        selected
    } else if rows > 0 && selected - scroll >= rows {
        (selected - (rows - 1)) as usize
    } else {
        scroll
    }
}

/// A number written left-aligned in at least three columns.
pub open spec fn padded3(n: nat) -> Seq<char> {
    let d = decimal(n);
    if d.len() >= 3 { d } else { d + Seq::new((3 - d.len()) as nat, |i: int| ' ') }
}

/// The icon of a role.
pub open spec fn role_icon(role: Seq<char>) -> Seq<char> {
    if role == "User"@ {
        "\u{1F464}"@
    } else if role == "Assistant"@ {
        "\u{1F916}"@
    } else if role == "Tool"@ {
        "\u{2699}"@
    } else {
        "\u{2022}"@
    }
}

/// The preview of an entry: its first 60 characters (with `...` when longer), or a note when
/// it has none.
pub open spec fn entry_preview(e: TimelineEntry) -> Seq<char> {
    if e.preview@.len() == 0 {
        if e.role@ == "Tool"@ { "(tool message)"@ } else { "(empty)"@ }
    } else if e.preview@.len() > 60 {
        first_chars(e.preview@, 60) + "..."@
    } else {
        e.preview@
    }
}

/// The text of entry `e`'s row: the selection marker, its number, its role's icon, the agent
/// of a reply, a mark for thinking, and its preview.
pub open spec fn entry_label(e: TimelineEntry, selected: bool) -> Seq<char> {
    (if selected { "\u{25b6} "@ } else { "  "@ }) + "#"@ + padded3((e.idx + 1) as nat) + role_icon(e.role@) + " "@
        + (if e.agent@.len() > 0 && e.role@ == "Assistant"@ { "["@ + e.agent@ + "] "@ } else { Seq::empty() })
        + (if e.has_thinking { "\u{1F4AD} "@ } else { Seq::empty() })
        + entry_preview(e)
}

/// Row `r` shows entry `i`: its text, and the number of its tool calls when it has any.
pub open spec fn timeline_row(s: TimelineDialogState, i: int, r: RowModel) -> bool {
    let e = s.entries@[i];
    &&& r.index == i && r.heading is None && r.selected == (i == s.selected) && !r.warning
    &&& r.label == entry_label(e, i == s.selected)
    &&& r.detail == (if e.tool_calls > 0 { " \u{26A1}"@ + decimal(e.tool_calls as nat) } else { Seq::empty() })
    &&& r.trailing.len() == 0
}

/// `v` is what the dialog shows with room for `rows` rows: its title with the number of
/// messages, the key hint, and, with no entries, a note, otherwise the entries in view from
/// the position that keeps the selection in view. It has no input line and no footer.
pub open spec fn timeline_view(s: TimelineDialogState, rows: usize, v: ViewModel) -> bool {
    let len = s.entries@.len();
    &&& v.title == " Timeline \u{2014} "@ + decimal(len as nat) + " message(s) "@
    &&& v.input.len() == 0 && v.input_tone == ViewTone::Muted
    &&& v.hint == " \u{2191}\u{2193} Navigate  \u{21B5} Jump  Esc Close  PgUp/PgDn Scroll  "@
    &&& v.footer.len() == 0
    &&& v.scroll_offset == timeline_scroll(s.selected, s.scroll, rows)
    &&& if len == 0 {
        v.empty == Some("No messages yet"@) && v.rows.len() == 0
    } else {
        &&& v.empty is None
        &&& v.rows.len() == shown_count(v.scroll_offset, rows, len)
        &&& forall|k: int| 0 <= k < v.rows.len() ==> timeline_row(s, v.scroll_offset + k, #[trigger] v.rows[k])
    }
}

#[verifier::spinoff_prover]
#[verifier::rlimit(40)]
fn entry_label_of(e: &TimelineEntry, selected: bool) -> (r: String)
    requires
        e.idx < usize::MAX,
    ensures
        r@ == entry_label(*e, selected),
{
    let mut r = String::from_str(if selected { "\u{25b6} " } else { "  " });
    r.append("#");
    let mut num = String::new();
    push_decimal(&mut num, (e.idx + 1) as u128);
    let d = num.unicode_len();
    r.append(num.as_str());
    let ghost before = r@;
    let mut k = d;
    while k < 3
        invariant
            d <= k <= 3 || (d > 3 && k == d),
            r@ == before + Seq::new((k - d) as nat, |i: int| ' '),
        decreases 3 - k,
    {
        r.append(" ");
        proof {
            reveal_strlit(" ");
        }
        k = k + 1;
        assert(r@ =~= before + Seq::new((k - d) as nat, |i: int| ' '));
    }
    assert(r@ =~= (if selected { "\u{25b6} "@ } else { "  "@ }) + "#"@ + padded3((e.idx + 1) as nat));
    let icon = if str_eq(e.role.as_str(), "User") {
        "\u{1F464}"
    } else if str_eq(e.role.as_str(), "Assistant") {
        "\u{1F916}"
    } else if str_eq(e.role.as_str(), "Tool") {
        "\u{2699}"
    } else {
        "\u{2022}"
    };
    r.append(icon);
    r.append(" ");
    if e.agent.unicode_len() > 0 && str_eq(e.role.as_str(), "Assistant") {
        r.append("[");
        r.append(e.agent.as_str());
        r.append("] ");
    }
    if e.has_thinking {
        r.append("\u{1F4AD} ");
    }
    let n = e.preview.unicode_len();
    if n == 0 {
        if str_eq(e.role.as_str(), "Tool") {
            r.append("(tool message)");
        } else {
            r.append("(empty)");
        }
    } else if n > 60 {
        let head = take_chars(e.preview.as_str(), 60);
        r.append(head.as_str());
        r.append("...");
    } else {
        r.append(e.preview.as_str());
    }
    r
}

/// What the timeline shows with room for `rows` rows (see `timeline_view`). The caller keeps
/// the scroll position shown.
pub fn timeline_dialog_view(s: &TimelineDialogState, rows: usize) -> (v: DialogView)
    requires
        forall|i: int| 0 <= i < s.entries@.len() ==> #[trigger] s.entries@[i].idx < usize::MAX,
    ensures
        timeline_view(*s, rows, v.model()),
{
    let len = s.entries.len();
    let mut title = String::from_str(" Timeline \u{2014} ");
    push_decimal(&mut title, len as u128);
    title.append(" message(s) ");
    let mut v = view_frame(
        "",
        String::new(),
        ViewTone::Muted,
        " \u{2191}\u{2193} Navigate  \u{21B5} Jump  Esc Close  PgUp/PgDn Scroll  ",
        String::new(),
    );
    v.title = title;
    let off = if s.selected < s.scroll {
        s.selected
    } else if rows > 0 && s.selected - s.scroll >= rows {
        s.selected - (rows - 1)
    } else {
        s.scroll
    };
    v.scroll_offset = off;
    if len == 0 {
        v.empty = Some(String::from_str("No messages yet"));
        return v;
    }
    let mut i = off;
    while i < len && i - off < rows
        invariant
            len == s.entries@.len(),
            forall|j: int| 0 <= j < s.entries@.len() ==> #[trigger] s.entries@[j].idx < usize::MAX,
            off <= i,
            i - off <= rows,
            off >= len ==> i == off,
            off < len ==> i <= len,
            v.model().rows.len() == i - off,
            v.scroll_offset == off,
            off == timeline_scroll(s.selected, s.scroll, rows),
            v.model().title == " Timeline \u{2014} "@ + decimal(len as nat) + " message(s) "@,
            v.model().input.len() == 0 && v.model().input_tone == ViewTone::Muted,
            v.model().hint == " \u{2191}\u{2193} Navigate  \u{21B5} Jump  Esc Close  PgUp/PgDn Scroll  "@,
            v.model().footer.len() == 0,
            v.model().empty is None,
            forall|k: int| 0 <= k < v.model().rows.len() ==> timeline_row(*s, off + k, #[trigger] v.model().rows[k]),
        decreases len - i,
    {
        let e = &s.entries[i];
        let label = entry_label_of(e, i == s.selected);
        let detail = if e.tool_calls > 0 {
            let mut d = String::from_str(" \u{26A1}");
            push_decimal(&mut d, e.tool_calls as u128);
            d
        } else {
            String::new()
        };
        let row = ViewRow { index: i, heading: None, label, detail, trailing: String::new(), selected: i == s.selected, warning: false };
        let ghost before = v.model().rows;
        v.rows.push(row);
        assert(v.model().rows =~= before.push(row_model(row)));
        i = i + 1;
    }
    proof {
        if off >= len {
            assert(i == off);
        } else if i == len {
            assert(len - off <= rows);
        } else {
            assert(i - off == rows);
        }
    }
    v
}

} // verus!
