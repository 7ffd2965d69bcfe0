//! The prompt editor: a line of text with a cursor counted in characters, word motions,
//! soft-wrapped cursor placement, chips for `@` references and a history of submissions.
use vstd::prelude::*;
use crate::text::{char_is_alphanumeric, char_is_whitespace, char_width, char_width_of, chars_of, copy_string, has_prefix, is_blank, is_white_space, lowercase_of, alphanumeric_of, seq_starts_with, splice_chars, str_eq, str_is_blank, str_width, str_width_of, string_of, string_of_range, to_lowercase};
use crate::frecency::{FrecencyStore, all_indices, is_top_ranking, lists_texts, prefix_selected};

verus! {

/// The agents that `@name` can refer to.
pub open spec fn is_known_agent(name: Seq<char>) -> bool {
    name == "build"@ || name == "plan"@ || name == "debug"@ || name == "review"@ || name == "test"@
}

/// Whether `name` is one of the known agents.
pub fn known_agent(name: &str) -> (b: bool)
    ensures
        b == is_known_agent(name@),
{
    str_eq(name, "build") || str_eq(name, "plan") || str_eq(name, "debug") || str_eq(
        name,
        "review",
    ) || str_eq(name, "test")
}

// ---------------------------------------------------------------------------
// Chips
// ---------------------------------------------------------------------------

/// A piece of the prompt as it is displayed.
#[derive(Debug)]
pub enum InputSegment {
    Text(String),
    FileChip(String),
    AgentChip(String),
}

/// What a segment holds, as plain values.
pub enum SegmentModel {
    Text(Seq<char>),
    FileChip(Seq<char>),
    AgentChip(Seq<char>),
}

impl InputSegment {
    pub open spec fn model(&self) -> SegmentModel {
        match self {
            InputSegment::Text(t) => SegmentModel::Text(t@),
            InputSegment::FileChip(t) => SegmentModel::FileChip(t@),
            InputSegment::AgentChip(t) => SegmentModel::AgentChip(t@),
        }
    }
}

impl SegmentModel {
    pub open spec fn chars(self) -> Seq<char> {
        match self {
            SegmentModel::Text(t) => t,
            SegmentModel::FileChip(t) => t,
            SegmentModel::AgentChip(t) => t,
        }
    }
}

/// Characters that may follow `@` in a reference.
pub open spec fn is_ref(c: char) -> bool {
    alphanumeric_of(c) || c == '_' || c == '.' || c == '/' || c == '-'
}

/// Whether `c` may be part of an `@` reference.
pub fn is_ref_char(c: char) -> (b: bool)
    ensures
        b == is_ref(c),
{
    char_is_alphanumeric(c) || c == '_' || c == '.' || c == '/' || c == '-'
}

/// The end of the run of reference characters that starts at `i`.
pub open spec fn ref_run_end(s: Seq<char>, i: int) -> int
    decreases s.len() - i,
{
    if i < s.len() && is_ref(s[i]) {
        ref_run_end(s, i + 1)
    } else {
        i
    }
}

/// A chip starts at `i`: an `@` followed by a reference character.
pub open spec fn chip_starts(s: Seq<char>, i: int) -> bool {
    0 <= i && i + 1 < s.len() && s[i] == '@' && is_ref(s[i + 1])
}

/// The segment for a chip text (including its `@`).
pub open spec fn chip_model(chip: Seq<char>) -> SegmentModel {
    if is_known_agent(chip.drop_first()) {
        SegmentModel::AgentChip(chip)
    } else {
        SegmentModel::FileChip(chip)
    }
}

/// The segments of `s` from position `i` on, with `pending` the text gathered since the last
/// chip: plain characters accumulate; a chip closes the pending text and stands alone.
pub open spec fn segments_from(s: Seq<char>, i: int, pending: Seq<char>) -> Seq<SegmentModel>
    decreases s.len() - i,
{
    if i >= s.len() {
        if pending.len() > 0 {
            seq![SegmentModel::Text(pending)]
        } else {
            seq![]
        }
    } else if chip_starts(s, i) {
        let end = ref_run_end(s, i + 1);
        proof {
            lemma_ref_run_end(s, i + 1);
        }
        let before: Seq<SegmentModel> = if pending.len() > 0 {
            seq![SegmentModel::Text(pending)]
        } else {
            seq![]
        };
        before + seq![chip_model(s.subrange(i, end))] + segments_from(s, end, Seq::empty())
    } else {
        segments_from(s, i + 1, pending.push(s[i]))
    }
}

/// The displayed segments of a prompt line.
pub open spec fn segments_of(s: Seq<char>) -> Seq<SegmentModel> {
    segments_from(s, 0, Seq::empty())
}

/// The characters of a list of segments, joined.
pub open spec fn joined(segs: Seq<SegmentModel>) -> Seq<char>
    decreases segs.len(),
{
    if segs.len() == 0 {
        Seq::empty()
    } else {
        joined(segs.drop_last()) + segs.last().chars()
    }
}

pub proof fn lemma_ref_run_end(s: Seq<char>, i: int)
    requires
        0 <= i <= s.len(),
    ensures
        i <= ref_run_end(s, i) <= s.len(),
        forall|k: int| i <= k < ref_run_end(s, i) ==> is_ref(#[trigger] s[k]),
        ref_run_end(s, i) < s.len() ==> !is_ref(s[ref_run_end(s, i)]),
    decreases s.len() - i,
{
    if i < s.len() && is_ref(s[i]) {
        lemma_ref_run_end(s, i + 1);
    }
}

proof fn lemma_joined_append(a: Seq<SegmentModel>, b: Seq<SegmentModel>)
    ensures
        joined(a + b) == joined(a) + joined(b),
    decreases b.len(),
{
    if b.len() == 0 {
        assert(a + b =~= a);
        assert(joined(b) =~= Seq::<char>::empty());
        assert(joined(a) + joined(b) =~= joined(a));
    } else {
        lemma_joined_append(a, b.drop_last());
        assert((a + b).drop_last() =~= a + b.drop_last());
        assert(joined(a) + joined(b.drop_last()) + b.last().chars() =~= joined(a) + (joined(
            b.drop_last(),
        ) + b.last().chars()));
    }
}

proof fn lemma_joined_one(m: SegmentModel)
    ensures
        joined(seq![m]) == m.chars(),
{
    reveal_with_fuel(joined, 2);
    assert(seq![m].drop_last() =~= Seq::<SegmentModel>::empty());
    assert(Seq::<char>::empty() + m.chars() =~= m.chars());
}

/// Joining the segments of the rest of a line gives back the pending text and the rest.
proof fn lemma_segments_from_join(s: Seq<char>, i: int, pending: Seq<char>)
    requires
        0 <= i <= s.len(),
    ensures
        joined(segments_from(s, i, pending)) == pending + s.skip(i),
    decreases s.len() - i,
{
    if i >= s.len() {
        if pending.len() > 0 {
            lemma_joined_one(SegmentModel::Text(pending));
        }
        assert(pending + s.skip(i) =~= pending);
    } else if chip_starts(s, i) {
        lemma_ref_run_end(s, i + 1);
        let end = ref_run_end(s, i + 1);
        let before: Seq<SegmentModel> = if pending.len() > 0 {
            seq![SegmentModel::Text(pending)]
        } else {
            seq![]
        };
        let chip = chip_model(s.subrange(i, end));
        lemma_segments_from_join(s, end, Seq::empty());
        lemma_joined_append(before + seq![chip], segments_from(s, end, Seq::empty()));
        lemma_joined_append(before, seq![chip]);
        lemma_joined_one(chip);
        if pending.len() > 0 {
            lemma_joined_one(SegmentModel::Text(pending));
        } else {
            assert(joined(before) =~= pending);
        }
        assert(chip.chars() == s.subrange(i, end));
        assert(pending + s.subrange(i, end) + (Seq::<char>::empty() + s.skip(end)) =~= pending
            + s.skip(i));
    } else {
        lemma_segments_from_join(s, i + 1, pending.push(s[i]));
        assert(pending.push(s[i]) + s.skip(i + 1) =~= pending + s.skip(i));
    }
}

/// The chips and texts of a line, joined back together, give the line.
pub proof fn lemma_segments_rejoin(s: Seq<char>)
    ensures
        joined(segments_of(s)) == s,
{
    lemma_segments_from_join(s, 0, Seq::empty());
    assert(Seq::<char>::empty() + s.skip(0) =~= s);
}

/// Splits a prompt line into plain text and `@` chips: an `@` followed by reference
/// characters (letters, digits, `_`, `.`, `/`, `-`) is a chip, an agent chip when the name is
/// a known agent and a file chip otherwise.
pub fn parse_input_segments(value: &str) -> (segs: Vec<InputSegment>)
    ensures
        segs@.map_values(|g: InputSegment| g.model()) == segments_of(value@),
{
    let chars = chars_of(value);
    let len = chars.len();
    let mut segs: Vec<InputSegment> = Vec::new();
    let mut current: Vec<char> = Vec::new();
    let mut i: usize = 0;
    while i < len
        invariant
            chars@ == value@,
            len == chars@.len(),
            i <= len,
            segs@.map_values(|g: InputSegment| g.model()) + segments_from(chars@, i as int, current@)
                == segments_of(value@),
        decreases len - i,
    {
        let ghost prev = segs@.map_values(|g: InputSegment| g.model());
        if chars[i] == '@' && i + 1 < len && is_ref_char(chars[i + 1]) {
            proof {
                lemma_ref_run_end(chars@, i + 1);
            }
            let ghost pending = current@;
            if current.len() > 0 {
                let t = string_of(&current);
                segs.push(InputSegment::Text(t));
                current = Vec::new();
            }
            let start = i;
            i = i + 1;
            while i < len && is_ref_char(chars[i])
                invariant
                    chars@ == value@,
                    len == chars@.len(),
                    start + 1 <= i <= len,
                    i <= ref_run_end(chars@, start + 1),
                    ref_run_end(chars@, start + 1) == ref_run_end(chars@, i as int),
                decreases len - i,
            {
                i = i + 1;
                proof {
                    lemma_ref_run_end(chars@, i as int);
                }
            }
            let chip = string_of_range(&chars, start, i);
            let name = string_of_range(&chars, start + 1, i);
            assert(name@ == chip@.drop_first());
            if known_agent(name.as_str()) {
                segs.push(InputSegment::AgentChip(chip));
            } else {
                segs.push(InputSegment::FileChip(chip));
            }
            proof {
                let now = segs@.map_values(|g: InputSegment| g.model());
                let before: Seq<SegmentModel> = if pending.len() > 0 {
                    seq![SegmentModel::Text(pending)]
                } else {
                    seq![]
                };
                assert(now =~= prev + before + seq![chip_model(chars@.subrange(start as int, i as int))]);
                assert(segments_from(chars@, start as int, pending) == before + seq![chip_model(chars@.subrange(start as int, i as int))] + segments_from(chars@, i as int, Seq::empty()));
                assert(current@ =~= Seq::<char>::empty());
            }
        } else {
            proof {
                assert(segments_from(chars@, i as int, current@) == segments_from(chars@, i + 1, current@.push(chars@[i as int])));
            }
            current.push(chars[i]);
            i = i + 1;
        }
    }
    let ghost prev = segs@.map_values(|g: InputSegment| g.model());
    if current.len() > 0 {
        let t = string_of(&current);
        segs.push(InputSegment::Text(t));
        assert(segs@.map_values(|g: InputSegment| g.model()) =~= prev + seq![SegmentModel::Text(current@)]);
    } else {
        assert(prev + Seq::<SegmentModel>::empty() =~= prev);
    }
    segs
}


// ---------------------------------------------------------------------------
// Word motions
// ---------------------------------------------------------------------------

/// Moving left from `i` over white space (stops at 0).
pub open spec fn skip_space_back(s: Seq<char>, i: int) -> int
    decreases i,
{
    if i > 0 && is_white_space(s[i]) {
        skip_space_back(s, i - 1)
    } else {
        i
    }
}

/// Moving left from `i` over non-white-space (stops at 0).
pub open spec fn skip_word_back(s: Seq<char>, i: int) -> int
    decreases i,
{
    if i > 0 && !is_white_space(s[i]) {
        skip_word_back(s, i - 1)
    } else {
        i
    }
}

/// Start of the word left of position `cursor` (which is at least 1): white space before the
/// cursor is passed over, then the word; the result is just after the white space that
/// precedes the word, or 0.
pub open spec fn word_left_start(s: Seq<char>, cursor: int) -> int {
    let i = skip_word_back(s, skip_space_back(s, cursor - 1));
    if is_white_space(s[i]) {
        i + 1
    } else {
        i
    }
}

/// Moving right from `i` over white space (stops at the end).
pub open spec fn skip_space_fwd(s: Seq<char>, i: int) -> int
    decreases s.len() - i,
{
    if 0 <= i < s.len() && is_white_space(s[i]) {
        skip_space_fwd(s, i + 1)
    } else {
        i
    }
}

/// Moving right from `i` over non-white-space (stops at the end).
pub open spec fn skip_word_fwd(s: Seq<char>, i: int) -> int
    decreases s.len() - i,
{
    if 0 <= i < s.len() && !is_white_space(s[i]) {
        skip_word_fwd(s, i + 1)
    } else {
        i
    }
}

/// End of the word right of `cursor`: white space is passed over, then the word.
pub open spec fn word_right_end(s: Seq<char>, cursor: int) -> int {
    skip_word_fwd(s, skip_space_fwd(s, cursor))
}

proof fn lemma_skip_back_bounds(s: Seq<char>, i: int)
    requires
        0 <= i < s.len(),
    ensures
        0 <= skip_space_back(s, i) <= i,
        0 <= skip_word_back(s, i) <= i,
    decreases i,
{
    if i > 0 {
        lemma_skip_back_bounds(s, i - 1);
    }
}

proof fn lemma_skip_fwd_bounds(s: Seq<char>, i: int)
    requires
        0 <= i,
    ensures
        i <= skip_space_fwd(s, i),
        i <= skip_word_fwd(s, i),
        i <= s.len() ==> skip_space_fwd(s, i) <= s.len() && skip_word_fwd(s, i) <= s.len(),
        i > s.len() ==> skip_space_fwd(s, i) == i && skip_word_fwd(s, i) == i,
    decreases s.len() - i,
{
    if i < s.len() {
        lemma_skip_fwd_bounds(s, i + 1);
    }
}

proof fn lemma_word_right_bounds(s: Seq<char>, i: int)
    requires
        0 <= i,
    ensures
        i <= word_right_end(s, i),
        i <= s.len() ==> word_right_end(s, i) <= s.len(),
        i > s.len() ==> word_right_end(s, i) == i,
{
    lemma_skip_fwd_bounds(s, i);
    lemma_skip_fwd_bounds(s, skip_space_fwd(s, i));
}

fn space_back(v: &Vec<char>, i: usize) -> (r: usize)
    requires
        i < v@.len(),
    ensures
        r == skip_space_back(v@, i as int),
    decreases i,
{
    if i > 0 && char_is_whitespace(v[i]) {
        space_back(v, i - 1)
    } else {
        i
    }
}

fn word_back(v: &Vec<char>, i: usize) -> (r: usize)
    requires
        i < v@.len(),
    ensures
        r == skip_word_back(v@, i as int),
    decreases i,
{
    if i > 0 && !char_is_whitespace(v[i]) {
        word_back(v, i - 1)
    } else {
        i
    }
}

fn word_left_pos(v: &Vec<char>, cursor: usize) -> (r: usize)
    requires
        1 <= cursor <= v@.len(),
    ensures
        r == word_left_start(v@, cursor as int),
        r <= cursor,
{
    proof {
        lemma_skip_back_bounds(v@, cursor - 1);
        lemma_skip_back_bounds(v@, skip_space_back(v@, cursor - 1));
    }
    let i = word_back(v, space_back(v, cursor - 1));
    if char_is_whitespace(v[i]) {
        i + 1
    } else {
        i
    }
}

fn word_right_pos(v: &Vec<char>, cursor: usize) -> (r: usize)
    ensures
        r == word_right_end(v@, cursor as int),
{
    let mut i = cursor;
    while i < v.len() && char_is_whitespace(v[i])
        invariant
            cursor <= i,
            skip_space_fwd(v@, i as int) == skip_space_fwd(v@, cursor as int),
        decreases v@.len() - i,
    {
        i = i + 1;
    }
    while i < v.len() && !char_is_whitespace(v[i])
        invariant
            skip_word_fwd(v@, i as int) == word_right_end(v@, cursor as int),
        decreases v@.len() - i,
    {
        i = i + 1;
    }
    i
}

// ---------------------------------------------------------------------------
// Soft wrapping
// ---------------------------------------------------------------------------

/// The columns a character occupies: its display width, or 1 for a control character.
pub open spec fn cell_width(c: char) -> nat {
    match char_width_of(c) {
        Some(w) => w as nat,
        None => 1,
    }
}

/// Where the layout stands after some characters: row, column, and the width of the row.
pub struct WrapState {
    pub row: nat,
    pub col: nat,
    pub avail: nat,
}

/// One character placed: a newline starts a row; a character that would pass the width of
/// the row starts a row first; a placed character moves the column by its width (on a row of
/// no width nothing is placed).
pub open spec fn wrap_step(st: WrapState, c: char, sub: nat) -> WrapState {
    if c == '\n' {
        WrapState { row: st.row + 1, col: 0, avail: sub }
    } else {
        let w = cell_width(c);
        let st1 = if st.avail > 0 && st.col + w > st.avail {
            WrapState { row: st.row + 1, col: 0, avail: sub }
        } else {
            st
        };
        if st1.avail > 0 {
            WrapState { row: st1.row, col: st1.col + w, avail: st1.avail }
        } else {
            st1
        }
    }
}

/// The layout state after placing `s`, with `first` columns on the first row and `sub` on
/// each later row.
pub open spec fn wrap_fold(s: Seq<char>, first: nat, sub: nat) -> WrapState
    decreases s.len(),
{
    if s.len() == 0 {
        WrapState { row: 0, col: 0, avail: first }
    } else {
        wrap_step(wrap_fold(s.drop_last(), first, sub), s.last(), sub)
    }
}

/// The character offset at which a walk through `s` from position `i` (in state `st`)
/// reaches row `tr` at column `tc` or more, or the end of the row `tr`, or the end of `s`.
pub open spec fn offset_search(s: Seq<char>, i: int, st: WrapState, tr: nat, tc: nat, sub: nat) -> int
    decreases s.len() - i,
{
    if i < 0 || i >= s.len() {
        s.len() as int
    } else if st.row == tr && st.col >= tc {
        i
    } else if s[i] == '\n' {
        if st.row == tr {
            i
        } else {
            offset_search(s, i + 1, wrap_step(st, s[i], sub), tr, tc, sub)
        }
    } else if st.avail > 0 && st.col + cell_width(s[i]) > st.avail && st.row == tr {
        i
    } else {
        offset_search(s, i + 1, wrap_step(st, s[i], sub), tr, tc, sub)
    }
}

/// `a - b`, or 0 when `b` exceeds `a`.
pub open spec fn sat_sub(a: int, b: int) -> nat {
    if a >= b { (a - b) as nat } else { 0 }
}

proof fn lemma_wrap_fold_bounds(s: Seq<char>, first: nat, sub: nat)
    ensures
        wrap_fold(s, first, sub).row <= s.len(),
        wrap_fold(s, first, sub).avail <= if first > sub { first } else { sub },
    decreases s.len(),
{
    if s.len() > 0 {
        lemma_wrap_fold_bounds(s.drop_last(), first, sub);
    }
}

fn cell_width_of(c: char) -> (w: usize)
    ensures
        w == cell_width(c),
        w <= 3,
{
    match char_width(c) {
        Some(w) => w,
        None => 1,
    }
}

/// One layout step on machine integers.
fn wrap_step_exec(row: usize, col: usize, avail: usize, c: char, sub: usize, bound: Ghost<nat>)
    -> (r: (usize, usize, usize))
    requires
        row < usize::MAX,
        col <= bound@ + 3,
        avail <= bound@,
        sub <= bound@,
        bound@ + 3 <= usize::MAX,
    ensures
        r.0 as nat == wrap_step(WrapState { row: row as nat, col: col as nat, avail: avail as nat }, c, sub as nat).row,
        r.1 as nat == wrap_step(WrapState { row: row as nat, col: col as nat, avail: avail as nat }, c, sub as nat).col,
        r.2 as nat == wrap_step(WrapState { row: row as nat, col: col as nat, avail: avail as nat }, c, sub as nat).avail,
        r.0 <= row + 1,
        r.1 <= bound@ + 3,
        r.2 <= bound@,
{
    if c == '\n' {
        return (row + 1, 0, sub);
    }
    let w = cell_width_of(c);
    let mut row1 = row;
    let mut col1 = col;
    let mut avail1 = avail;
    if avail > 0 && (w > avail || col > avail - w) {
        row1 = row + 1;
        col1 = 0;
        avail1 = sub;
    }
    if avail1 > 0 {
        (row1, col1 + w, avail1)
    } else {
        (row1, col1, avail1)
    }
}

// ---------------------------------------------------------------------------
// The prompt state
// ---------------------------------------------------------------------------

/// The prompt being edited, with its history.
pub struct InputState {
    pub value: String,
    /// Cursor position, in characters.
    pub cursor: usize,
    pub prompt: String,
    pub placeholder: String,
    pub history: Vec<String>,
    pub history_idx: usize,
    pub history_temp: Option<String>,
    pub frecency: Option<FrecencyStore>,
    pub available_models: Vec<String>,
    pub available_sessions: Vec<String>,
    pub cwd: String,
    pub cursor_x: u16,
    pub cursor_y: u16,
    pub cursor_width: u16,
}

/// `s` has the prompt marker, placeholder, completion lists, working directory and screen
/// position of `o`.
pub open spec fn keeps_surroundings(o: InputState, s: InputState) -> bool {
    &&& s.prompt == o.prompt && s.placeholder == o.placeholder
    &&& s.available_models == o.available_models && s.available_sessions == o.available_sessions
    &&& s.cwd == o.cwd
    &&& s.cursor_x == o.cursor_x && s.cursor_y == o.cursor_y && s.cursor_width == o.cursor_width
}

/// `s` keeps the surroundings and the frecency store of `o`.
pub open spec fn keeps_setup(o: InputState, s: InputState) -> bool {
    keeps_surroundings(o, s) && s.frecency == o.frecency
}

/// `s` differs from `o` at most in its text and cursor.
pub open spec fn keeps_all_but_text(o: InputState, s: InputState) -> bool {
    &&& keeps_setup(o, s)
    &&& s.history == o.history && s.history_idx == o.history_idx && s.history_temp == o.history_temp
}

/// The cursor as an offset into the text: positions past the end count as the end.
pub open spec fn clamped(cursor: usize, len: nat) -> int {
    if cursor < len { cursor as int } else { len as int }
}

/// The longest history kept.
pub const HISTORY_LIMIT: usize = 100;

impl InputState {
    /// A fresh prompt with the given prompt marker and the default placeholder.
    pub fn new(prompt: &str) -> (s: Self)
        ensures
            s.prompt@ == prompt@,
            s.placeholder@ == "Ask icode to do anything..."@,
            s.value@.len() == 0,
            s.cursor == 0,
            s.history@.len() == 0,
            s.history_idx == 0,
            s.history_temp is None,
            s.frecency is None,
            s.cursor_x == 0 && s.cursor_y == 0 && s.cursor_width == 1,
    {
        InputState {
            value: String::new(),
            cursor: 0,
            prompt: String::from_str(prompt),
            placeholder: String::from_str("Ask icode to do anything..."),
            history: Vec::new(),
            history_idx: 0,
            history_temp: None,
            frecency: None,
            available_models: Vec::new(),
            available_sessions: Vec::new(),
            cwd: String::new(),
            cursor_x: 0,
            cursor_y: 0,
            cursor_width: 1,
        }
    }

    /// The cursor is within the text.
    pub open spec fn cursor_in_text(&self) -> bool {
        self.cursor <= self.value@.len()
    }

    fn set_value(&mut self, v: &Vec<char>)
        ensures
            final(self).value@ == v@,
            final(self).cursor == old(self).cursor,
            final(self).prompt == old(self).prompt,
            final(self).history == old(self).history,
            final(self).history_idx == old(self).history_idx,
            final(self).history_temp == old(self).history_temp,
            final(self).placeholder == old(self).placeholder,
            keeps_all_but_text(*old(self), *final(self)),
    {
        self.value = string_of(v);
    }

    /// Inserts `c` at the cursor and moves the cursor past it.
    pub fn insert_char(&mut self, c: char)
        requires
            old(self).cursor < usize::MAX,
        ensures
            ({
                let s = old(self).value@;
                let k = clamped(old(self).cursor, s.len());
                final(self).value@ == s.take(k).push(c) + s.skip(k)
            }),
            final(self).cursor == old(self).cursor + 1,
            final(self).model() == char_inserted(old(self).model(), c),
            keeps_all_but_text(*old(self), *final(self)),
    {
        let v = chars_of(self.value.as_str());
        let k = if self.cursor < v.len() {
            self.cursor
        } else {
            v.len()
        };
        let mut ins: Vec<char> = Vec::new();
        ins.push(c);
        let r = splice_chars(&v, k, k, &ins);
        assert(v@.take(k as int) + ins@ + v@.skip(k as int) =~= v@.take(k as int).push(c) + v@.skip(k as int));
        self.set_value(&r);
        self.cursor = self.cursor + 1;
    }

    /// Inserts `t` at the cursor and moves the cursor past it.
    pub fn insert_str(&mut self, t: &str)
        requires
            old(self).cursor + t@.len() <= usize::MAX,
        ensures
            ({
                let s = old(self).value@;
                let k = clamped(old(self).cursor, s.len());
                final(self).value@ == s.take(k) + t@ + s.skip(k)
            }),
            final(self).cursor == old(self).cursor + t@.len(),
            keeps_all_but_text(*old(self), *final(self)),
    {
        let v = chars_of(self.value.as_str());
        let ins = chars_of(t);
        let k = if self.cursor < v.len() {
            self.cursor
        } else {
            v.len()
        };
        let r = splice_chars(&v, k, k, &ins);
        self.set_value(&r);
        self.cursor = self.cursor + ins.len();
    }

    /// Deletes the character before the cursor and moves the cursor back one.
    pub fn backspace(&mut self)
        ensures
            old(self).cursor == 0 ==> final(self).value@ == old(self).value@ && final(self).cursor == 0,
            old(self).cursor > 0 ==> ({
                let s = old(self).value@;
                let k = clamped(old(self).cursor, s.len());
                &&& final(self).value@ == (if k > 0 { s.take(k - 1) + s.skip(k) } else { s })
                &&& final(self).cursor == old(self).cursor - 1
            }),
            final(self).model() == backspaced(old(self).model()),
            keeps_all_but_text(*old(self), *final(self)),
    {
        if self.cursor == 0 {
            return;
        }
        let v = chars_of(self.value.as_str());
        let k = if self.cursor < v.len() {
            self.cursor
        } else {
            v.len()
        };
        if k > 0 {
            let ins: Vec<char> = Vec::new();
            let r = splice_chars(&v, k - 1, k, &ins);
            assert(v@.take(k - 1) + ins@ + v@.skip(k as int) =~= v@.take(k - 1) + v@.skip(k as int));
            self.set_value(&r);
        }
        self.cursor = self.cursor - 1;
    }

    /// Deletes the word left of the cursor (with the white space between it and the cursor).
    pub fn delete_word_left(&mut self)
        requires
            old(self).cursor_in_text(),
        ensures
            old(self).cursor == 0 ==> final(self).value@ == old(self).value@ && final(self).cursor == 0,
            old(self).cursor > 0 ==> ({
                let s = old(self).value@;
                let start = word_left_start(s, old(self).cursor as int);
                &&& final(self).value@ == s.take(start) + s.skip(old(self).cursor as int)
                &&& final(self).cursor == start
            }),
            final(self).cursor_in_text(),
            keeps_all_but_text(*old(self), *final(self)),
    {
        if self.cursor == 0 {
            return;
        }
        let v = chars_of(self.value.as_str());
        let start = word_left_pos(&v, self.cursor);
        let ins: Vec<char> = Vec::new();
        let r = splice_chars(&v, start, self.cursor, &ins);
        assert(v@.take(start as int) + ins@ + v@.skip(self.cursor as int) =~= v@.take(start as int) + v@.skip(self.cursor as int));
        self.set_value(&r);
        self.cursor = start;
    }

    /// Deletes the character at the cursor.
    pub fn delete(&mut self)
        ensures
            ({
                let s = old(self).value@;
                let k = clamped(old(self).cursor, s.len());
                final(self).value@ == (if k < s.len() { s.take(k) + s.skip(k + 1) } else { s })
            }),
            final(self).cursor == old(self).cursor,
            keeps_all_but_text(*old(self), *final(self)),
    {
        let v = chars_of(self.value.as_str());
        let k = if self.cursor < v.len() {
            self.cursor
        } else {
            v.len()
        };
        if k < v.len() {
            let ins: Vec<char> = Vec::new();
            let r = splice_chars(&v, k, k + 1, &ins);
            assert(v@.take(k as int) + ins@ + v@.skip(k + 1) =~= v@.take(k as int) + v@.skip(k + 1));
            self.set_value(&r);
        }
    }

    /// Moves the cursor to the start of the word to its left.
    pub fn move_word_left(&mut self)
        requires
            old(self).cursor_in_text(),
        ensures
            final(self).value == old(self).value,
            old(self).cursor == 0 ==> final(self).cursor == 0,
            old(self).cursor > 0 ==> final(self).cursor == word_left_start(old(self).value@, old(self).cursor as int),
            final(self).cursor_in_text(),
            keeps_all_but_text(*old(self), *final(self)),
    {
        if self.cursor == 0 {
            return;
        }
        let v = chars_of(self.value.as_str());
        self.cursor = word_left_pos(&v, self.cursor);
    }

    /// Moves the cursor past the white space and the word to its right.
    pub fn move_word_right(&mut self)
        ensures
            final(self).value == old(self).value,
            final(self).cursor == word_right_end(old(self).value@, old(self).cursor as int),
            old(self).cursor_in_text() ==> final(self).cursor_in_text(),
            keeps_all_but_text(*old(self), *final(self)),
    {
        let v = chars_of(self.value.as_str());
        proof {
            lemma_word_right_bounds(v@, self.cursor as int);
        }
        self.cursor = word_right_pos(&v, self.cursor);
    }

    /// Deletes everything before the cursor.
    pub fn delete_to_start(&mut self)
        ensures
            final(self).value@ == old(self).value@.skip(clamped(old(self).cursor, old(self).value@.len())),
            final(self).cursor == 0,
            keeps_all_but_text(*old(self), *final(self)),
    {
        let v = chars_of(self.value.as_str());
        let k = if self.cursor < v.len() {
            self.cursor
        } else {
            v.len()
        };
        let ins: Vec<char> = Vec::new();
        let r = splice_chars(&v, 0, k, &ins);
        assert(v@.take(0) + ins@ + v@.skip(k as int) =~= v@.skip(k as int));
        self.set_value(&r);
        self.cursor = 0;
    }

    /// Deletes everything from the cursor on.
    pub fn delete_to_end(&mut self)
        ensures
            final(self).value@ == old(self).value@.take(clamped(old(self).cursor, old(self).value@.len())),
            final(self).cursor == old(self).cursor,
            keeps_all_but_text(*old(self), *final(self)),
    {
        let v = chars_of(self.value.as_str());
        let k = if self.cursor < v.len() {
            self.cursor
        } else {
            v.len()
        };
        let ins: Vec<char> = Vec::new();
        let r = splice_chars(&v, k, v.len(), &ins);
        assert(v@.take(k as int) + ins@ + v@.skip(v@.len() as int) =~= v@.take(k as int));
        self.set_value(&r);
    }

    /// Deletes the white space and the word right of the cursor.
    pub fn delete_word_right(&mut self)
        ensures
            final(self).cursor == old(self).cursor,
            ({
                let s = old(self).value@;
                final(self).value@ == (if old(self).cursor < s.len() {
                    s.take(old(self).cursor as int) + s.skip(word_right_end(s, old(self).cursor as int))
                } else {
                    s
                })
            }),
            keeps_all_but_text(*old(self), *final(self)),
    {
        let v = chars_of(self.value.as_str());
        if self.cursor >= v.len() {
            return;
        }
        proof {
            lemma_word_right_bounds(v@, self.cursor as int);
        }
        let end = word_right_pos(&v, self.cursor);
        let ins: Vec<char> = Vec::new();
        let r = splice_chars(&v, self.cursor, end, &ins);
        assert(v@.take(self.cursor as int) + ins@ + v@.skip(end as int) =~= v@.take(self.cursor as int) + v@.skip(end as int));
        self.set_value(&r);
    }

    /// Moves the cursor one character left (not past the start).
    pub fn move_left(&mut self)
        ensures
            final(self).value == old(self).value,
            final(self).cursor == if old(self).cursor > 0 { old(self).cursor - 1 } else { 0 },
            keeps_all_but_text(*old(self), *final(self)),
    {
        if self.cursor > 0 {
            self.cursor = self.cursor - 1;
        }
    }

    /// Moves the cursor one character right (not past the end).
    pub fn move_right(&mut self)
        ensures
            final(self).value == old(self).value,
            final(self).cursor == if old(self).cursor < old(self).value@.len() {
                old(self).cursor + 1
            } else {
                old(self).cursor as int
            },
            keeps_all_but_text(*old(self), *final(self)),
    {
        let n = self.value.as_str().unicode_len();
        if self.cursor < n {
            self.cursor = self.cursor + 1;
        }
    }

    /// Moves the cursor to the start.
    pub fn move_home(&mut self)
        ensures
            final(self).value == old(self).value,
            final(self).cursor == 0,
            keeps_all_but_text(*old(self), *final(self)),
    {
        self.cursor = 0;
    }

    /// Moves the cursor to the end.
    pub fn move_end(&mut self)
        ensures
            final(self).value == old(self).value,
            final(self).cursor == old(self).value@.len(),
            keeps_all_but_text(*old(self), *final(self)),
    {
        self.cursor = self.value.as_str().unicode_len();
    }

    /// Empties the text.
    pub fn clear(&mut self)
        ensures
            final(self).value@.len() == 0,
            final(self).cursor == 0,
            final(self).history == old(self).history,
            keeps_all_but_text(*old(self), *final(self)),
    {
        self.value = String::new();
        self.cursor = 0;
    }

    /// The columns of the first row: the width minus the prompt marker.
    pub open spec fn first_row_room(&self, max_width: usize) -> nat {
        sat_sub(max_width as int, str_width_of(self.prompt@) as int)
    }

    /// Row and column of the cursor when the text is wrapped to `max_width` columns.
    pub fn cursor_position(&self, max_width: usize) -> (rc: (usize, usize))
        requires
            max_width + 3 <= usize::MAX,
        ensures
            ({
                let s = self.value@;
                let st = wrap_fold(s.take(clamped(self.cursor, s.len())), self.first_row_room(max_width), max_width as nat);
                rc.0 == st.row && rc.1 == st.col
            }),
            rc.0 <= self.value@.len(),
    {
        let v = chars_of(self.value.as_str());
        let k = if self.cursor < v.len() {
            self.cursor
        } else {
            v.len()
        };
        let pw = str_width(self.prompt.as_str());
        let first = if max_width >= pw {
            max_width - pw
        } else {
            0
        };
        let (row, col, _avail) = self.wrap_prefix(&v, k, first, max_width);
        (row, col)
    }

    /// The layout state after the first `k` characters of `v`.
    fn wrap_prefix(&self, v: &Vec<char>, k: usize, first: usize, sub: usize) -> (r: (usize, usize, usize))
        requires
            k <= v@.len(),
            first <= sub,
            sub + 3 <= usize::MAX,
        ensures
            r.0 <= k,
            r.0 == wrap_fold(v@.take(k as int), first as nat, sub as nat).row,
            r.1 == wrap_fold(v@.take(k as int), first as nat, sub as nat).col,
            r.2 == wrap_fold(v@.take(k as int), first as nat, sub as nat).avail,
    {
        let mut row: usize = 0;
        let mut col: usize = 0;
        let mut avail: usize = first;
        let mut i: usize = 0;
        assert(v@.take(0) =~= Seq::<char>::empty());
        while i < k
            invariant
                i <= k <= v@.len(),
                first <= sub,
                sub + 3 <= usize::MAX,
                row <= i,
                col <= sub + 3,
                avail <= sub,
                row == wrap_fold(v@.take(i as int), first as nat, sub as nat).row,
                col == wrap_fold(v@.take(i as int), first as nat, sub as nat).col,
                avail == wrap_fold(v@.take(i as int), first as nat, sub as nat).avail,
            decreases k - i,
        {
            let r = wrap_step_exec(row, col, avail, v[i], sub, Ghost(sub as nat));
            row = r.0;
            col = r.1;
            avail = r.2;
            i = i + 1;
            proof {
                assert(v@.take(i as int).drop_last() =~= v@.take(i - 1));
                assert(v@.take(i as int).last() == v@[i - 1]);
            }
        }
        (row, col, avail)
    }

    /// Number of rows the text takes when wrapped to `max_width` columns.
    pub fn total_rows(&self, max_width: usize) -> (n: usize)
        requires
            max_width + 3 <= usize::MAX,
            self.value@.len() < usize::MAX,
        ensures
            n == wrap_fold(self.value@, self.first_row_room(max_width), max_width as nat).row + 1,
    {
        let v = chars_of(self.value.as_str());
        let pw = str_width(self.prompt.as_str());
        let first = if max_width >= pw {
            max_width - pw
        } else {
            0
        };
        let (row, _col, _avail) = self.wrap_prefix(&v, v.len(), first, max_width);
        proof {
            assert(v@.take(v@.len() as int) =~= v@);
            lemma_wrap_fold_bounds(v@, first as nat, max_width as nat);
        }
        row + 1
    }

    /// The offset of the first character at or past column `target_col` on row
    /// `target_row`, or the end of that row, or the end of the text.
    fn char_offset_at_row_col(&self, target_row: usize, target_col: usize, max_width: usize) -> (r: usize)
        requires
            max_width + 3 <= usize::MAX,
            self.value@.len() < usize::MAX,
        ensures
            r == offset_search(
                self.value@,
                0,
                WrapState { row: 0, col: 0, avail: self.first_row_room(max_width) },
                target_row as nat,
                target_col as nat,
                max_width as nat,
            ),
            r <= self.value@.len(),
    {
        let v = chars_of(self.value.as_str());
        let pw = str_width(self.prompt.as_str());
        let first = if max_width >= pw {
            max_width - pw
        } else {
            0
        };
        let ghost s = v@;
        let ghost sub = max_width as nat;
        let ghost tr = target_row as nat;
        let ghost tc = target_col as nat;
        let ghost st0 = WrapState { row: 0, col: 0, avail: first as nat };
        assert(st0 == WrapState { row: 0, col: 0, avail: self.first_row_room(max_width) });
        let mut row: usize = 0;
        let mut col: usize = 0;
        let mut avail: usize = first;
        let mut i: usize = 0;
        while i < v.len()
            invariant
                s == v@,
                s == self.value@,
                tr == target_row as nat,
                tc == target_col as nat,
                sub == max_width as nat,
                st0 == (WrapState { row: 0, col: 0, avail: self.first_row_room(max_width) }),
                s.len() < usize::MAX,
                i <= s.len(),
                max_width + 3 <= usize::MAX,
                first <= max_width,
                row <= i,
                col <= max_width + 3,
                avail <= max_width,
                offset_search(s, i as int, WrapState { row: row as nat, col: col as nat, avail: avail as nat }, tr, tc, sub)
                    == offset_search(s, 0, st0, tr, tc, sub),
            decreases s.len() - i,
        {
            let ghost cur = WrapState { row: row as nat, col: col as nat, avail: avail as nat };
            if row == target_row && col >= target_col {
                assert(offset_search(s, i as int, cur, tr, tc, sub) == i as int);
                return i;
            }
            let c = v[i];
            if c == '\n' {
                if row == target_row {
                    assert(offset_search(s, i as int, cur, tr, tc, sub) == i as int);
                    return i;
                }
            } else {
                let w = cell_width_of(c);
                if avail > 0 && (w > avail || col > avail - w) && row == target_row {
                    assert(offset_search(s, i as int, cur, tr, tc, sub) == i as int);
                    return i;
                }
            }
            let r = wrap_step_exec(row, col, avail, c, max_width, Ghost(max_width as nat));
            assert(offset_search(s, i as int, cur, tr, tc, sub) == offset_search(s, i + 1, wrap_step(cur, c, sub), tr, tc, sub));
            row = r.0;
            col = r.1;
            avail = r.2;
            i = i + 1;
        }
        i
    }

    /// Moves the cursor to the same column one row up; false when on the first row.
    pub fn move_up(&mut self, max_width: usize) -> (moved: bool)
        requires
            max_width + 3 <= usize::MAX,
            old(self).value@.len() < usize::MAX,
        ensures
            final(self).value == old(self).value,
            ({
                let s = old(self).value@;
                let st = wrap_fold(s.take(clamped(old(self).cursor, s.len())), old(self).first_row_room(max_width), max_width as nat);
                if max_width == 0 || st.row == 0 {
                    !moved && final(self).cursor == old(self).cursor
                } else {
                    moved && final(self).cursor == offset_search(
                        s,
                        0,
                        WrapState { row: 0, col: 0, avail: old(self).first_row_room(max_width) },
                        (st.row - 1) as nat,
                        st.col,
                        max_width as nat,
                    )
                }
            }),
            final(self).cursor_in_text() || final(self).cursor == old(self).cursor,
            keeps_all_but_text(*old(self), *final(self)),
    {
        if max_width == 0 {
            return false;
        }
        let (row, col) = self.cursor_position(max_width);
        if row == 0 {
            return false;
        }
        self.cursor = self.char_offset_at_row_col(row - 1, col, max_width);
        true
    }

    /// Moves the cursor to the same column one row down; false when on the last row.
    pub fn move_down(&mut self, max_width: usize) -> (moved: bool)
        requires
            max_width + 3 <= usize::MAX,
            old(self).value@.len() < usize::MAX,
        ensures
            final(self).value == old(self).value,
            ({
                let s = old(self).value@;
                let room = old(self).first_row_room(max_width);
                let st = wrap_fold(s.take(clamped(old(self).cursor, s.len())), room, max_width as nat);
                let rows = wrap_fold(s, room, max_width as nat).row + 1;
                if max_width == 0 || st.row + 1 >= rows {
                    !moved && final(self).cursor == old(self).cursor
                } else {
                    moved && final(self).cursor == offset_search(
                        s,
                        0,
                        WrapState { row: 0, col: 0, avail: room },
                        st.row + 1,
                        st.col,
                        max_width as nat,
                    )
                }
            }),
            wrap_fold(old(self).value@, old(self).first_row_room(max_width), max_width as nat).row == 0 ==> !moved
                && final(self).cursor == old(self).cursor,
            final(self).cursor_in_text() || final(self).cursor == old(self).cursor,
            keeps_all_but_text(*old(self), *final(self)),
    {
        if max_width == 0 {
            return false;
        }
        let (row, col) = self.cursor_position(max_width);
        let total = self.total_rows(max_width);
        if row + 1 >= total {
            return false;
        }
        self.cursor = self.char_offset_at_row_col(row + 1, col, max_width);
        true
    }

    /// The editing state as plain values.
    pub open spec fn model(&self) -> InputModel {
        InputModel {
            value: self.value@,
            cursor: self.cursor,
            history: self.history@.map_values(|h: String| h@),
            history_idx: self.history_idx,
            history_temp: match self.history_temp {
                Some(t) => Some(t@),
                None => None,
            },
        }
    }

    /// Records the current text in the history (unless it is blank), keeping the last 100
    /// entries, and resets history browsing.
    pub fn push_history(&mut self)
        ensures
            final(self).model() == history_pushed(old(self).model()),
            final(self).value == old(self).value,
            final(self).cursor == old(self).cursor,
            keeps_setup(*old(self), *final(self)),
    {
        if !str_is_blank(self.value.as_str()) {
            let ghost before = self.history@;
            self.history.push(copy_string(&self.value));
            proof {
                assert(self.history@.map_values(|h: String| h@) =~= before.map_values(|h: String| h@).push(self.value@));
            }
            if self.history.len() > HISTORY_LIMIT {
                let ghost full = self.history@;
                self.history.remove(0);
                proof {
                    assert(self.history@.map_values(|h: String| h@) =~= full.map_values(|h: String| h@).drop_first());
                }
            }
        }
        self.history_idx = self.history.len();
        self.history_temp = None;
    }

    /// Steps back in the history: the draft is kept aside the first time, then the text
    /// becomes the previous entry with the cursor at its end.
    pub fn history_up(&mut self)
        requires
            old(self).history_idx <= old(self).history@.len(),
        ensures
            final(self).model() == history_upped(old(self).model()),
            keeps_setup(*old(self), *final(self)),
    {
        if self.history.len() == 0 {
            return;
        }
        if self.history_temp.is_none() {
            self.history_temp = Some(copy_string(&self.value));
        }
        if self.history_idx > 0 {
            self.history_idx = self.history_idx - 1;
            self.value = copy_string(&self.history[self.history_idx]);
            self.cursor = self.value.as_str().unicode_len();
        }
    }

    /// Steps forward in the history; past the newest entry the kept draft comes back.
    pub fn history_down(&mut self)
        requires
            old(self).history@.len() < usize::MAX,
            old(self).history_idx <= old(self).history@.len(),
        ensures
            final(self).model() == history_downed(old(self).model()),
            keeps_setup(*old(self), *final(self)),
    {
        if self.history_temp.is_none() && self.history_idx >= self.history.len() {
            return;
        }
        if self.history_idx + 1 >= self.history.len() {
            self.history_idx = self.history.len();
            let t = self.history_temp.take();
            self.value = match t {
                Some(t) => t,
                None => String::new(),
            };
            self.cursor = self.value.as_str().unicode_len();
        } else {
            self.history_idx = self.history_idx + 1;
            self.value = copy_string(&self.history[self.history_idx]);
            self.cursor = self.value.as_str().unicode_len();
        }
    }

    /// Earlier entries matching `prefix`: from the frecency store when there is one (best
    /// first), otherwise the history entries whose lower-cased form starts with the
    /// lower-cased prefix, oldest first, at most `limit`.
    pub fn history_suggestions(&self, prefix: &str, limit: usize) -> (r: Vec<String>)
        ensures
            self.frecency is None ==> r@.map_values(|h: String| h@) == take_at_most(
                history_matches(self.history@.map_values(|h: String| h@), prefix@),
                limit as nat,
            ),
            self.frecency matches Some(f) ==> exists|now: u128, cands: Seq<usize>, idx: Seq<usize>|
                #![trigger is_top_ranking(f.models(), cands, limit as nat, now, idx)]
                (forall|i: int| 0 <= i < cands.len() ==> #[trigger] cands[i] < f.models().len())
                && (forall|k: int| 0 <= k < f.models().len() ==> (cands.contains(k as usize) <==> #[trigger] prefix_selected(f.models(), prefix@, k)))
                && is_top_ranking(f.models(), cands, limit as nat, now, idx)
                && lists_texts(f.models(), idx, r@),
    {
        match &self.frecency {
            Some(f) => f.suggestions(prefix, limit),
            None => {
                let pl = to_lowercase(prefix);
                let plv = chars_of(pl.as_str());
                let ghost hs = self.history@.map_values(|h: String| h@);
                let mut r: Vec<String> = Vec::new();
                let mut i: usize = 0;
                while i < self.history.len() && r.len() < limit
                    invariant
                        i <= self.history@.len(),
                        hs == self.history@.map_values(|h: String| h@),
                        plv@ == lowercase_of(prefix@),
                        r@.len() <= limit,
                        r@.map_values(|h: String| h@) == take_at_most(history_matches(hs.take(i as int), prefix@), limit as nat),
                        r@.len() < limit ==> r@.len() == history_matches(hs.take(i as int), prefix@).len(),
                    decreases self.history.len() - i,
                {
                    let hl = to_lowercase(self.history[i].as_str());
                    let hlv = chars_of(hl.as_str());
                    let ghost before = r@;
                    proof {
                        assert(hs.take(i + 1).drop_last() =~= hs.take(i as int));
                        assert(hs.take(i + 1).last() == self.history@[i as int]@);
                        lemma_take_at_most_small(history_matches(hs.take(i as int), prefix@), limit as nat);
                    }
                    if seq_starts_with(&hlv, &plv) {
                        r.push(copy_string(&self.history[i]));
                        proof {
                            let m = history_matches(hs.take(i as int), prefix@);
                            let m2 = history_matches(hs.take(i + 1), prefix@);
                            assert(m2 =~= m.push(self.history@[i as int]@));
                            lemma_take_at_most_small(m2, limit as nat);
                            assert(r@.map_values(|h: String| h@) =~= before.map_values(|h: String| h@).push(self.history@[i as int]@));
                        }
                    } else {
                        proof {
                            assert(history_matches(hs.take(i + 1), prefix@) =~= history_matches(hs.take(i as int), prefix@));
                        }
                    }
                    i = i + 1;
                }
                proof {
                    if r@.len() >= limit {
                        // the limit was reached: further matches are cut off
                        lemma_take_at_most_prefix(hs, i as int, prefix@, limit as nat);
                    } else {
                        assert(hs.take(i as int) =~= hs);
                    }
                }
                r
            },
        }
    }

    /// The most used entries: from the frecency store when there is one, otherwise the newest
    /// history entries, newest first, at most `limit`.
    pub fn frecency_top_entries(&self, limit: usize) -> (r: Vec<String>)
        ensures
            self.frecency is None ==> r@.map_values(|h: String| h@) == take_at_most(
                self.history@.map_values(|h: String| h@).reverse(),
                limit as nat,
            ),
            self.frecency matches Some(f) ==> exists|now: u128, idx: Seq<usize>|
                #![trigger is_top_ranking(f.models(), all_indices(f.models().len()), limit as nat, now, idx)]
                is_top_ranking(f.models(), all_indices(f.models().len()), limit as nat, now, idx)
                    && lists_texts(f.models(), idx, r@),
    {
        match &self.frecency {
            Some(f) => f.top_entries(limit),
            None => {
                let ghost rev = self.history@.map_values(|h: String| h@).reverse();
                let n = self.history.len();
                let mut r: Vec<String> = Vec::new();
                let mut i: usize = 0;
                while i < n && i < limit
                    invariant
                        n == self.history@.len(),
                        rev == self.history@.map_values(|h: String| h@).reverse(),
                        i <= n,
                        i <= limit,
                        r@.map_values(|h: String| h@) == rev.take(i as int),
                    decreases n - i,
                {
                    let ghost before = r@;
                    r.push(copy_string(&self.history[n - 1 - i]));
                    proof {
                        assert(rev[i as int] == self.history@.map_values(|h: String| h@)[n - 1 - i]);
                        assert(rev[i as int] == self.history@[n - 1 - i]@);
                        assert(r@.map_values(|h: String| h@) =~= before.map_values(|h: String| h@).push(rev[i as int]));
                        assert(rev.take(i + 1) =~= rev.take(i as int).push(rev[i as int]));
                    }
                    i = i + 1;
                }
                proof {
                    if i == n {
                        assert(rev.take(i as int) =~= rev);
                        assert(take_at_most(rev, limit as nat) == rev);
                    } else {
                        assert(take_at_most(rev, limit as nat) == rev.take(limit as int));
                    }
                }
                r
            },
        }
    }

    /// Sets the model names offered for completion.
    pub fn set_models(&mut self, models: Vec<String>)
        ensures
            final(self).available_models == models,
            final(self).model() == old(self).model(),
            *final(self) == (InputState { available_models: models, ..*old(self) }),
    {
        self.available_models = models;
    }

    /// Sets the session ids offered for completion.
    pub fn set_sessions(&mut self, sessions: Vec<String>)
        ensures
            final(self).available_sessions == sessions,
            final(self).model() == old(self).model(),
            *final(self) == (InputState { available_sessions: sessions, ..*old(self) }),
    {
        self.available_sessions = sessions;
    }

    /// Sets the working directory used for file completion.
    pub fn set_cwd(&mut self, cwd: String)
        ensures
            final(self).cwd == cwd,
            final(self).model() == old(self).model(),
            *final(self) == (InputState { cwd: cwd, ..*old(self) }),
    {
        self.cwd = cwd;
    }

    /// Completion candidates are not kept by this prompt; the call changes nothing.
    pub fn set_completions(&mut self, completions: Vec<String>)
        ensures
            final(self).model() == old(self).model(),
            *final(self) == *old(self),
    {
    }

    /// Contextual completion is not offered by this prompt: nothing changes and the answer
    /// is false.
    pub fn complete_contextual(&mut self) -> (b: bool)
        ensures
            !b,
            final(self).model() == old(self).model(),
            *final(self) == *old(self),
    {
        false
    }

    /// Cycling completions is not offered by this prompt; nothing changes.
    pub fn cycle_completion_forward(&mut self)
        ensures
            final(self).model() == old(self).model(),
            *final(self) == *old(self),
    {
    }

    /// Cycling completions is not offered by this prompt; nothing changes.
    pub fn cycle_completion_backward(&mut self)
        ensures
            final(self).model() == old(self).model(),
            *final(self) == *old(self),
    {
    }

    /// Slash completion is handled by the autocomplete popup; nothing changes here.
    pub fn slash_autocomplete_up(&mut self)
        ensures
            final(self).model() == old(self).model(),
            *final(self) == *old(self),
    {
    }

    /// Slash completion is handled by the autocomplete popup; nothing changes here.
    pub fn slash_autocomplete_down(&mut self)
        ensures
            final(self).model() == old(self).model(),
            *final(self) == *old(self),
    {
    }

    /// Slash completion is handled by the autocomplete popup; nothing is selected.
    pub fn slash_autocomplete_select(&mut self) -> (b: bool)
        ensures
            !b,
            final(self).model() == old(self).model(),
            *final(self) == *old(self),
    {
        false
    }

    /// Slash completion is handled by the autocomplete popup; there is no selection here.
    pub fn selected_slash_completion(&self) -> (r: Option<&str>)
        ensures
            r is None,
    {
        None
    }

    /// Takes the text out (recording it in the frecency store when there is one) and resets
    /// the cursor.
    pub fn submit(&mut self) -> (v: String)
        requires
            old(self).frecency matches Some(f) ==> f.wf() && f.can_record(),
        ensures
            v@ == old(self).value@,
            final(self).value@.len() == 0,
            final(self).cursor == 0,
            final(self).history == old(self).history,
            final(self).history_idx == old(self).history_idx,
            final(self).history_temp == old(self).history_temp,
            old(self).frecency is None ==> final(self).frecency is None,
            old(self).frecency matches Some(f) ==> final(self).frecency matches Some(g) && g.wf() && (
                is_blank(v@) ==> g.models() == f.models()) && (!is_blank(v@) ==> exists|t: u128|
                g.models() == crate::frecency::recorded(f.models(), crate::text::trimmed(v@), t)),
            keeps_surroundings(*old(self), *final(self)),
    {
        let mut value = String::new();
        std::mem::swap(&mut value, &mut self.value);
        match &mut self.frecency {
            Some(f) => {
                f.record(value.as_str());
            },
            None => {},
        }
        self.cursor = 0;
        value
    }

    /// The text to show: the text, or the placeholder when the text is empty.
    pub fn visible_text(&self) -> (r: String)
        ensures
            r@ == if self.value@.len() == 0 { self.placeholder@ } else { self.value@ },
    {
        if self.value.as_str().unicode_len() == 0 {
            return copy_string(&self.placeholder);
        }
        copy_string(&self.value)
    }

    /// Whether the text is empty.
    pub fn is_empty(&self) -> (b: bool)
        ensures
            b == (self.value@.len() == 0),
    {
        self.value.as_str().unicode_len() == 0
    }
}

/// The editing state of a prompt as plain values.
pub struct InputModel {
    pub value: Seq<char>,
    pub cursor: usize,
    pub history: Seq<Seq<char>>,
    pub history_idx: usize,
    pub history_temp: Option<Seq<char>>,
}

/// The first `n` items of `s`, or all of them.
pub open spec fn take_at_most<T>(s: Seq<T>, n: nat) -> Seq<T> {
    if n < s.len() { s.take(n as int) } else { s }
}

proof fn lemma_take_at_most_small<T>(s: Seq<T>, n: nat)
    ensures
        s.len() < n ==> take_at_most(s, n) == s,
        take_at_most(s, n).len() == if n < s.len() { n } else { s.len() },
{
}

/// The history entries whose lower-cased form starts with the lower-cased `prefix`.
pub open spec fn history_matches(hs: Seq<Seq<char>>, prefix: Seq<char>) -> Seq<Seq<char>>
    decreases hs.len(),
{
    if hs.len() == 0 {
        Seq::empty()
    } else {
        let rest = history_matches(hs.drop_last(), prefix);
        if has_prefix(lowercase_of(hs.last()), lowercase_of(prefix)) {
            rest.push(hs.last())
        } else {
            rest
        }
    }
}

proof fn lemma_history_matches_grow(hs: Seq<Seq<char>>, i: int, j: int, prefix: Seq<char>)
    requires
        0 <= i <= j <= hs.len(),
    ensures
        history_matches(hs.take(i), prefix).len() <= history_matches(hs.take(j), prefix).len(),
        history_matches(hs.take(j), prefix).take(history_matches(hs.take(i), prefix).len() as int)
            == history_matches(hs.take(i), prefix),
    decreases j - i,
{
    if i < j {
        lemma_history_matches_grow(hs, i, j - 1, prefix);
        assert(hs.take(j).drop_last() =~= hs.take(j - 1));
        let a = history_matches(hs.take(i), prefix);
        let b = history_matches(hs.take(j - 1), prefix);
        let c = history_matches(hs.take(j), prefix);
        if c.len() > b.len() {
            assert(c =~= b.push(hs[j - 1]));
            assert(c.take(a.len() as int) =~= b.take(a.len() as int));
        } else {
            assert(c == b);
        }
    } else {
        assert(history_matches(hs.take(j), prefix).take(history_matches(hs.take(i), prefix).len() as int) =~= history_matches(hs.take(i), prefix));
    }
}

proof fn lemma_take_at_most_prefix(hs: Seq<Seq<char>>, i: int, prefix: Seq<char>, limit: nat)
    requires
        0 <= i <= hs.len(),
        history_matches(hs.take(i), prefix).len() >= limit,
    ensures
        take_at_most(history_matches(hs.take(i), prefix), limit) == take_at_most(history_matches(hs, prefix), limit),
{
    lemma_history_matches_grow(hs, i, hs.len() as int, prefix);
    assert(hs.take(hs.len() as int) =~= hs);
    let a = history_matches(hs.take(i), prefix);
    let b = history_matches(hs, prefix);
    assert(b.take(a.len() as int) == a);
    if limit < a.len() {
        assert(a.take(limit as int) =~= b.take(limit as int));
    } else {
        assert(a =~= b.take(limit as int));
    }
}

/// The state after `push_history`.
pub open spec fn history_pushed(m: InputModel) -> InputModel {
    let h = if is_blank(m.value) {
        m.history
    } else if m.history.len() + 1 > HISTORY_LIMIT {
        m.history.push(m.value).drop_first()
    } else {
        m.history.push(m.value)
    };
    InputModel { history: h, history_idx: h.len() as usize, history_temp: None, ..m }
}

/// The state after `history_up`.
pub open spec fn history_upped(m: InputModel) -> InputModel {
    if m.history.len() == 0 {
        m
    } else {
        let temp = if m.history_temp is None { Some(m.value) } else { m.history_temp };
        if m.history_idx > 0 {
            let v = m.history[m.history_idx - 1];
            InputModel {
                value: v,
                cursor: v.len() as usize,
                history_idx: (m.history_idx - 1) as usize,
                history_temp: temp,
                ..m
            }
        } else {
            InputModel { history_temp: temp, ..m }
        }
    }
}

/// The state after `history_down`.
pub open spec fn history_downed(m: InputModel) -> InputModel {
    if m.history_temp is None && m.history_idx >= m.history.len() {
        m
    } else if m.history_idx + 1 >= m.history.len() {
        let v = match m.history_temp {
            Some(t) => t,
            None => Seq::empty(),
        };
        InputModel {
            value: v,
            cursor: v.len() as usize,
            history_idx: m.history.len() as usize,
            history_temp: None,
            ..m
        }
    } else {
        let v = m.history[m.history_idx + 1];
        InputModel { value: v, cursor: v.len() as usize, history_idx: (m.history_idx + 1) as usize, ..m }
    }
}

/// Browsing history up and then down again, from the resting state, gives back the text that
/// was being written and leaves browsing at rest.
pub proof fn lemma_history_up_down_restores(m: InputModel)
    requires
        m.history.len() > 0,
        m.history.len() < usize::MAX,
        m.history_idx == m.history.len(),
        m.history_temp is None,
        m.cursor == m.value.len(),
    ensures
        history_downed(history_upped(m)) == m,
{
    let up = history_upped(m);
    assert(up.history_idx == m.history.len() - 1);
    assert(up.history_temp == Some(m.value));
}

/// After the text is recorded in the history, one step up recalls it.
pub proof fn lemma_push_then_up_recalls(m: InputModel)
    requires
        !is_blank(m.value),
        m.history.len() < HISTORY_LIMIT,
    ensures
        history_upped(history_pushed(m)).value == m.value,
        history_upped(history_pushed(m)).history_temp == Some(m.value),
{
}


/// The state after typing `c`.
pub open spec fn char_inserted(m: InputModel, c: char) -> InputModel {
    let k = clamped(m.cursor, m.value.len());
    InputModel { value: m.value.take(k).push(c) + m.value.skip(k), cursor: (m.cursor + 1) as usize, ..m }
}

/// The state after a backspace.
pub open spec fn backspaced(m: InputModel) -> InputModel {
    if m.cursor == 0 {
        m
    } else {
        let k = clamped(m.cursor, m.value.len());
        InputModel {
            value: if k > 0 { m.value.take(k - 1) + m.value.skip(k) } else { m.value },
            cursor: (m.cursor - 1) as usize,
            ..m
        }
    }
}

/// Typing a character and deleting it with backspace gives back the text and the cursor.
pub proof fn lemma_insert_then_backspace(m: InputModel, c: char)
    requires
        m.cursor <= m.value.len(),
        m.cursor < usize::MAX,
    ensures
        backspaced(char_inserted(m, c)) == m,
{
    let k = m.cursor as int;
    let s1 = m.value.take(k).push(c) + m.value.skip(k);
    assert(s1.take(k) =~= m.value.take(k));
    assert(s1.skip(k + 1) =~= m.value.skip(k));
    assert(s1.take(k) + s1.skip(k + 1) =~= m.value);
}


/// The pieces of `s` between newlines (one more than the number of newlines).
pub open spec fn newline_pieces(s: Seq<char>) -> Seq<Seq<char>>
    decreases s.len(),
{
    if s.len() == 0 {
        seq![Seq::empty()]
    } else {
        let p = newline_pieces(s.drop_last());
        if s.last() == '\n' {
            p.push(Seq::empty())
        } else {
            p.update(p.len() - 1, p.last().push(s.last()))
        }
    }
}

proof fn lemma_newline_pieces_nonempty(s: Seq<char>)
    ensures
        newline_pieces(s).len() >= 1,
    decreases s.len(),
{
    if s.len() > 0 {
        lemma_newline_pieces_nonempty(s.drop_last());
    }
}

/// A line that ended with a newline loses one trailing carriage return.
pub open spec fn strip_cr(l: Seq<char>) -> Seq<char> {
    if l.len() > 0 && l.last() == '\r' { l.drop_last() } else { l }
}

/// The lines of `s` as `str::lines` yields them: pieces between newlines, a carriage return
/// before a newline removed, and no empty last line.
pub open spec fn text_lines(s: Seq<char>) -> Seq<Seq<char>> {
    let p = newline_pieces(s);
    p.drop_last().map_values(|l: Seq<char>| strip_cr(l)) + if p.last().len() > 0 {
        seq![p.last()]
    } else {
        Seq::empty()
    }
}

/// Rows a line of `w` columns takes in rows of `avail` columns (at least one).
pub open spec fn rows_for_width(w: nat, avail: nat) -> nat {
    if avail == 0 {
        1
    } else if w == 0 {
        1
    } else {
        ((w + avail - 1) / avail as int) as nat
    }
}

/// Rows all `lines` take.
pub open spec fn rows_for_lines(lines: Seq<Seq<char>>, avail: nat) -> nat
    decreases lines.len(),
{
    if lines.len() == 0 {
        0
    } else {
        rows_for_lines(lines.drop_last(), avail) + rows_for_width(
            str_width_of(lines.last()) as nat,
            avail,
        )
    }
}

fn rows_for_width_exec(w: usize, avail: usize) -> (r: usize)
    ensures
        r == rows_for_width(w as nat, avail as nat),
        r >= 1,
{
    if avail == 0 || w == 0 {
        1
    } else {
        let q = w / avail;
        let r = if w % avail != 0 {
            assert(q < usize::MAX) by (nonlinear_arith)
                requires
                    avail > 0,
                    w % avail != 0,
                    q == w / avail,
                    w <= usize::MAX,
            {
                assert(avail >= 2);
                assert(q * avail <= w);
            }
            q + 1
        } else {
            q
        };
        assert((w + avail - 1) / avail as int == r) by (nonlinear_arith)
            requires
                avail > 0,
                w > 0,
                q == w / avail,
                r == if w % avail != 0 { q + 1 } else { q as int },
        ;
        assert(r >= 1) by (nonlinear_arith)
            requires
                avail > 0,
                w > 0,
                r == (w + avail - 1) / avail as int,
        ;
        r
    }
}

/// `x`, or the largest `usize` when it is larger.
pub open spec fn capped(x: int) -> int {
    if x > usize::MAX { usize::MAX as int } else { x }
}

impl InputState {
    /// The text that `line_count` measures: the text, or the placeholder when it is empty.
    pub open spec fn shown(&self) -> Seq<char> {
        if self.value@.len() == 0 { self.placeholder@ } else { self.value@ }
    }

    /// Rows the shown text takes in an area `max_width` columns wide (at least one; the
    /// count stops at the largest `usize`).
    pub fn line_count(&self, max_width: usize) -> (n: usize)
        ensures
            max_width == 0 ==> n == 1,
            max_width > 0 ==> ({
                let rows = rows_for_lines(text_lines(self.shown()), sat_sub(max_width as int, str_width_of(self.prompt@) as int));
                n == if rows == 0 { 1 } else { capped(rows as int) }
            }),
    {
        if max_width == 0 {
            return 1;
        }
        let text = if self.value.as_str().unicode_len() == 0 {
            &self.placeholder
        } else {
            &self.value
        };
        let v = chars_of(text.as_str());
        let pw = str_width(self.prompt.as_str());
        let avail = if max_width >= pw {
            max_width - pw
        } else {
            0
        };
        let mut count: usize = 0;
        let mut cur: Vec<char> = Vec::new();
        let mut i: usize = 0;
        proof {
            assert(v@.take(0) =~= Seq::<char>::empty());
        }
        while i < v.len()
            invariant
                v@ == self.shown(),
                i <= v@.len(),
                newline_pieces(v@.take(i as int)).last() == cur@,
                count == capped(rows_for_lines(newline_pieces(v@.take(i as int)).drop_last().map_values(|l: Seq<char>| strip_cr(l)), avail as nat) as int),
            decreases v@.len() - i,
        {
            proof {
                lemma_newline_pieces_nonempty(v@.take(i as int));
                assert(v@.take(i + 1).drop_last() =~= v@.take(i as int));
                assert(v@.take(i + 1).last() == v@[i as int]);
            }
            if v[i] == '\n' {
                let mut line = cur;
                if line.len() > 0 && line[line.len() - 1] == '\r' {
                    line.pop();
                }
                let ls = string_of(&line);
                let w = str_width(ls.as_str());
                proof {
                    let p = newline_pieces(v@.take(i as int));
                    let p2 = newline_pieces(v@.take(i + 1));
                    assert(p2 == p.push(Seq::<char>::empty()));
                    assert(p2.drop_last() =~= p);
                    let m = p.drop_last().map_values(|l: Seq<char>| strip_cr(l));
                    let m2 = p.map_values(|l: Seq<char>| strip_cr(l));
                    assert(m2.drop_last() =~= m);
                    assert(m2.last() == line@);
                }
                let rw = rows_for_width_exec(w, avail);
                count = count.saturating_add(rw);
                cur = Vec::new();
            } else {
                proof {
                    let p = newline_pieces(v@.take(i as int));
                    let p2 = newline_pieces(v@.take(i + 1));
                    assert(p2 == p.update(p.len() - 1, p.last().push(v@[i as int])));
                    assert(p2.drop_last() =~= p.drop_last());
                }
                cur.push(v[i]);
            }
            i = i + 1;
        }
        proof {
            assert(v@.take(v@.len() as int) =~= v@);
            lemma_newline_pieces_nonempty(v@);
        }
        if cur.len() > 0 {
            let ls = string_of(&cur);
            let w = str_width(ls.as_str());
            let rw = rows_for_width_exec(w, avail);
            proof {
                let p = newline_pieces(v@);
                let m = p.drop_last().map_values(|l: Seq<char>| strip_cr(l));
                assert(text_lines(v@) =~= m.push(cur@));
                assert(text_lines(v@).drop_last() =~= m);
            }
            count = count.saturating_add(rw);
        } else {
            proof {
                let p = newline_pieces(v@);
                let m = p.drop_last().map_values(|l: Seq<char>| strip_cr(l));
                assert(text_lines(v@) =~= m);
            }
        }
        if count == 0 {
            1
        } else {
            count
        }
    }
}

/// The lines of `s` (`str::lines`): see `text_lines`.
pub fn lines_of(s: &str) -> (r: Vec<String>)
    ensures
        r@.map_values(|l: String| l@) == text_lines(s@),
{
    let v = chars_of(s);
    let mut out: Vec<String> = Vec::new();
    let mut cur: Vec<char> = Vec::new();
    let mut i: usize = 0;
    proof {
        assert(v@.take(0) =~= Seq::<char>::empty());
        assert(out@.map_values(|l: String| l@) =~= Seq::<Seq<char>>::empty());
    }
    while i < v.len()
        invariant
            v@ == s@,
            i <= v@.len(),
            newline_pieces(v@.take(i as int)).last() == cur@,
            out@.map_values(|l: String| l@) == newline_pieces(v@.take(i as int)).drop_last().map_values(
                |l: Seq<char>| strip_cr(l),
            ),
        decreases v@.len() - i,
    {
        proof {
            lemma_newline_pieces_nonempty(v@.take(i as int));
            assert(v@.take(i + 1).drop_last() =~= v@.take(i as int));
            assert(v@.take(i + 1).last() == v@[i as int]);
        }
        if v[i] == '\n' {
            let mut line = cur;
            if line.len() > 0 && line[line.len() - 1] == '\r' {
                line.pop();
            }
            let ls = string_of(&line);
            let ghost before = out@;
            out.push(ls);
            proof {
                let p = newline_pieces(v@.take(i as int));
                let p2 = newline_pieces(v@.take(i + 1));
                assert(p2 == p.push(Seq::<char>::empty()));
                assert(p2.drop_last() =~= p);
                let m = p.drop_last().map_values(|l: Seq<char>| strip_cr(l));
                let m2 = p.map_values(|l: Seq<char>| strip_cr(l));
                assert(m2 =~= m.push(strip_cr(p.last())));
                assert(out@.map_values(|l: String| l@) =~= before.map_values(|l: String| l@).push(line@));
            }
            cur = Vec::new();
        } else {
            proof {
                let p = newline_pieces(v@.take(i as int));
                let p2 = newline_pieces(v@.take(i + 1));
                assert(p2 == p.update(p.len() - 1, p.last().push(v@[i as int])));
                assert(p2.drop_last() =~= p.drop_last());
            }
            cur.push(v[i]);
        }
        i = i + 1;
    }
    proof {
        assert(v@.take(v@.len() as int) =~= v@);
        lemma_newline_pieces_nonempty(v@);
    }
    if cur.len() > 0 {
        let ghost before = out@;
        out.push(string_of(&cur));
        proof {
            let p = newline_pieces(v@);
            let m = p.drop_last().map_values(|l: Seq<char>| strip_cr(l));
            assert(text_lines(v@) =~= m.push(cur@));
            assert(out@.map_values(|l: String| l@) =~= before.map_values(|l: String| l@).push(cur@));
        }
    } else {
        proof {
            let p = newline_pieces(v@);
            let m = p.drop_last().map_values(|l: Seq<char>| strip_cr(l));
            assert(text_lines(v@) =~= m);
        }
    }
    out
}

} // verus!
