//! The prompt stash: saved prompts, browsed, searched, created and deleted from a dialog.
//! Reading and writing the stash files is left to the caller; the keys are interpreted over
//! a plain model of the dialog (`StashModel`).
use vstd::prelude::*;
use crate::frecency::now_millis;
use crate::dialog_view::{shown_count, view_frame, view_scroll, view_scroll_offset, row_model, DialogView, RowModel, ViewModel, ViewRow, ViewTone};
use crate::input::{lines_of, text_lines};
use crate::listing::{format_relative_time_at, relative_time};
use crate::keys::{is_ctrl_char, KeyCode, KeyEvent};
use crate::sorting::{is_stable_sort, stable_sort_indices};
use crate::text::{decimal, push_decimal, concat, concat3, byte_len, chars_of, contains_seq, copy_string, lemma_byte_len_prefix, lemma_byte_len_step, lowercase_of, pop_char, push_char, str_byte_len, str_contains, str_eq, str_trim, string_of_range, to_lowercase, trimmed, char_len_utf8};

verus! {

/// One saved prompt.
#[derive(Debug, Clone)]
pub struct PromptStashEntry {
    pub name: String,
    pub content: String,
    pub created_at: u128,
    pub updated_at: u128,
}

/// What the dialog is doing.
#[derive(Debug, Clone, Copy, PartialEq, Eq, Structural)]
pub enum StashMode {
    Browsing,
    SearchInput,
    CreateInput,
    /// Waiting for a second delete key to delete the entry at this position.
    ConfirmDelete(usize),
}

/// What a key asks of the caller.
#[derive(Debug, Clone)]
pub enum StashAction {
    Nothing,
    Close,
    Select(String),
    SaveNew(String, String),
    Delete(usize),
    StartSearch,
}

/// An entry as plain values: name, content, creation and update times.
pub open spec fn entry_view(e: PromptStashEntry) -> (Seq<char>, Seq<char>, u128, u128) {
    (e.name@, e.content@, e.created_at, e.updated_at)
}

/// The plain values of a list of entries.
pub open spec fn entry_views(es: Seq<PromptStashEntry>) -> Seq<(Seq<char>, Seq<char>, u128, u128)> {
    es.map_values(|e: PromptStashEntry| entry_view(e))
}

/// An entry matches a search when the lower-cased search occurs in its lower-cased name or
/// content.
pub open spec fn stash_matches(e: (Seq<char>, Seq<char>, u128, u128), search: Seq<char>) -> bool {
    contains_seq(lowercase_of(e.0), lowercase_of(search)) || contains_seq(lowercase_of(e.1), lowercase_of(search))
}

/// The entries listed for a search: all of them when it is empty, else the matching ones,
/// in order.
pub open spec fn stash_filtered(es: Seq<(Seq<char>, Seq<char>, u128, u128)>, search: Seq<char>) -> Seq<(Seq<char>, Seq<char>, u128, u128)>
    decreases es.len(),
{
    if search.len() == 0 {
        es
    } else if es.len() == 0 {
        Seq::empty()
    } else if stash_matches(es.last(), search) {
        stash_filtered(es.drop_last(), search).push(es.last())
    } else {
        stash_filtered(es.drop_last(), search)
    }
}

/// The position of the first entry named `name`.
pub open spec fn position_of_name(es: Seq<(Seq<char>, Seq<char>, u128, u128)>, name: Seq<char>) -> Option<int>
    decreases es.len(),
{
    if es.len() == 0 {
        None
    } else {
        match position_of_name(es.drop_last(), name) {
            Some(p) => Some(p),
            None => if es.last().0 == name {
                Some(es.len() - 1)
            } else {
                None
            },
        }
    }
}

/// The dialog as plain values: the listed entries are part of it.
pub struct StashModel {
    pub open: bool,
    pub filtered: Seq<(Seq<char>, Seq<char>, u128, u128)>,
    pub selected: usize,
    pub search: Seq<char>,
    pub new_name: Seq<char>,
    pub mode: StashMode,
}

/// An action as plain values.
pub enum StashOutcome {
    Nothing,
    Close,
    Select(Seq<char>),
    SaveNew(Seq<char>, Seq<char>),
    Delete(usize),
    StartSearch,
}

/// The plain values of an action.
pub open spec fn outcome_of(a: StashAction) -> StashOutcome {
    match a {
        StashAction::Nothing => StashOutcome::Nothing,
        StashAction::Close => StashOutcome::Close,
        StashAction::Select(s) => StashOutcome::Select(s@),
        StashAction::SaveNew(n, c) => StashOutcome::SaveNew(n@, c@),
        StashAction::Delete(i) => StashOutcome::Delete(i),
        StashAction::StartSearch => StashOutcome::StartSearch,
    }
}

/// The last listed row, or 0.
pub open spec fn last_of(len: nat) -> usize {
    if len > 0 { (len - 1) as usize } else { 0 }
}

/// `m` with the list rebuilt for its search over `es`, the selection kept within it.
pub open spec fn filtered_m(es: Seq<(Seq<char>, Seq<char>, u128, u128)>, m: StashModel) -> StashModel {
    let f = stash_filtered(es, m.search);
    StashModel {
        filtered: f,
        selected: if m.selected <= last_of(f.len()) { m.selected } else { last_of(f.len()) },
        ..m
    }
}

/// Whether the list can be moved through in mode `mode`.
pub open spec fn navigating(mode: StashMode) -> bool {
    mode == StashMode::Browsing || mode == StashMode::SearchInput
}

/// A key over entries `es`: Esc or Ctrl+C closes; Enter deletes when confirming, saves a
/// new name when creating, else picks the selected entry; the arrows and page keys move
/// while browsing or searching; Ctrl+N starts creating; Delete or Ctrl+D asks to confirm
/// deleting the selected entry, or confirms; `/` starts a search; backspace and characters
/// edit the search (typing while browsing starts one) or the new name.
pub open spec fn stash_key_m(es: Seq<(Seq<char>, Seq<char>, u128, u128)>, m: StashModel, key: KeyEvent) -> (StashModel, StashOutcome) {
    let len = m.filtered.len();
    if key.code == KeyCode::Esc || key.is_ctrl_char('c') {
        (StashModel { open: false, ..m }, StashOutcome::Close)
    } else if key.code == KeyCode::Enter {
        match m.mode {
            StashMode::ConfirmDelete(idx) => (StashModel { mode: StashMode::Browsing, ..m }, StashOutcome::Delete(idx)),
            StashMode::CreateInput => if trimmed(m.new_name).len() == 0 {
                (m, StashOutcome::Nothing)
            } else {
                (m, StashOutcome::SaveNew(trimmed(m.new_name), Seq::empty()))
            },
            _ => if m.selected < len {
                (StashModel { open: false, ..m }, StashOutcome::Select(m.filtered[m.selected as int].1))
            } else {
                (m, StashOutcome::Nothing)
            },
        }
    } else if key.code == KeyCode::Up {
        (if navigating(m.mode) && m.selected > 0 { StashModel { selected: (m.selected - 1) as usize, ..m } } else { m }, StashOutcome::Nothing)
    } else if key.code == KeyCode::Down {
        (if navigating(m.mode) && m.selected < last_of(len) { StashModel { selected: (m.selected + 1) as usize, ..m } } else { m }, StashOutcome::Nothing)
    } else if key.code == KeyCode::PageUp {
        (if navigating(m.mode) { StashModel { selected: if m.selected >= 10 { (m.selected - 10) as usize } else { 0 }, ..m } } else { m }, StashOutcome::Nothing)
    } else if key.code == KeyCode::PageDown {
        (if navigating(m.mode) { StashModel { selected: if m.selected + 10 <= last_of(len) { (m.selected + 10) as usize } else { last_of(len) }, ..m } } else { m }, StashOutcome::Nothing)
    } else if key.is_ctrl_char('n') {
        (StashModel { new_name: Seq::empty(), mode: StashMode::CreateInput, ..m }, StashOutcome::Nothing)
    } else if key.code == KeyCode::Delete || key.is_ctrl_char('d') {
        match m.mode {
            StashMode::ConfirmDelete(idx) => (StashModel { mode: StashMode::Browsing, ..m }, StashOutcome::Delete(idx)),
            _ => if m.selected < len {
                match position_of_name(es, m.filtered[m.selected as int].0) {
                    Some(p) => (StashModel { mode: StashMode::ConfirmDelete(p as usize), ..m }, StashOutcome::Nothing),
                    None => (m, StashOutcome::Nothing),
                }
            } else {
                (m, StashOutcome::Nothing)
            },
        }
    } else if key.code == KeyCode::Char('/') {
        if m.mode == StashMode::Browsing {
            (StashModel { search: Seq::empty(), mode: StashMode::SearchInput, ..m }, StashOutcome::StartSearch)
        } else {
            (m, StashOutcome::Nothing)
        }
    } else if key.code == KeyCode::Backspace {
        match m.mode {
            StashMode::SearchInput => if m.search.len() > 0 {
                (filtered_m(es, StashModel { search: m.search.drop_last(), selected: 0, ..m }), StashOutcome::Nothing)
            } else {
                (m, StashOutcome::Nothing)
            },
            StashMode::CreateInput => (StashModel { new_name: if m.new_name.len() > 0 { m.new_name.drop_last() } else { m.new_name }, ..m }, StashOutcome::Nothing),
            StashMode::Browsing => if m.search.len() > 0 {
                (filtered_m(es, StashModel { search: Seq::empty(), selected: 0, ..m }), StashOutcome::Nothing)
            } else {
                (m, StashOutcome::Nothing)
            },
            StashMode::ConfirmDelete(_) => (m, StashOutcome::Nothing),
        }
    } else {
        match key.code {
            KeyCode::Char(c) => match m.mode {
                StashMode::SearchInput => (filtered_m(es, StashModel { search: m.search.push(c), selected: 0, ..m }), StashOutcome::Nothing),
                StashMode::CreateInput => (StashModel { new_name: m.new_name.push(c), ..m }, StashOutcome::Nothing),
                StashMode::Browsing => (filtered_m(es, StashModel { search: seq![c], selected: 0, mode: StashMode::SearchInput, ..m }), StashOutcome::Nothing),
                StashMode::ConfirmDelete(_) => (m, StashOutcome::Nothing),
            },
            _ => (m, StashOutcome::Nothing),
        }
    }
}

/// An entry is deleted only once its deletion was asked for: a key that deletes finds the
/// dialog confirming the deletion of that entry.
pub proof fn lemma_delete_needs_confirmation(es: Seq<(Seq<char>, Seq<char>, u128, u128)>, m: StashModel, key: KeyEvent)
    ensures
        stash_key_m(es, m, key).1 matches StashOutcome::Delete(i) ==> m.mode == StashMode::ConfirmDelete(i),
{
}

/// The state of the stash dialog.
#[derive(Debug, Clone)]
pub struct PromptStashState {
    pub open: bool,
    pub entries: Vec<PromptStashEntry>,
    pub filtered: Vec<PromptStashEntry>,
    pub selected: usize,
    pub scroll_offset: usize,
    pub search: String,
    pub new_name_input: String,
    pub mode: StashMode,
}

fn copy_entry(e: &PromptStashEntry) -> (r: PromptStashEntry)
    ensures
        entry_view(r) == entry_view(*e),
{
    PromptStashEntry {
        name: copy_string(&e.name),
        content: copy_string(&e.content),
        created_at: e.created_at,
        updated_at: e.updated_at,
    }
}

/// The entries after saving `content` under `name` at time `now`: an entry of that name
/// takes the content and `now` as its update time; otherwise a new entry is added last.
pub open spec fn saved(es: Seq<(Seq<char>, Seq<char>, u128, u128)>, name: Seq<char>, content: Seq<char>, now: u128) -> Seq<(Seq<char>, Seq<char>, u128, u128)> {
    match position_of_name(es, name) {
        Some(p) => es.update(p, (name, content, es[p].2, now)),
        None => es.push((name, content, now, now)),
    }
}

/// The order on entries by last update, newest first, by position.
pub open spec fn recency_order(es: Seq<(Seq<char>, Seq<char>, u128, u128)>) -> spec_fn(int, int) -> bool {
    |i: int, j: int| es[i].3 >= es[j].3
}

/// `r` lists `es` by last update, newest first, entries updated at the same time in their
/// order.
pub open spec fn by_recency(es: Seq<(Seq<char>, Seq<char>, u128, u128)>, r: Seq<(Seq<char>, Seq<char>, u128, u128)>) -> bool {
    exists|perm: Seq<usize>|
        #[trigger] is_stable_sort(recency_order(es), es.len() as int, perm)
            && r.len() == perm.len() && forall|k: int| 0 <= k < perm.len() ==> #[trigger] r[k] == es[perm[k] as int]
}

impl PromptStashState {
    /// The dialog as plain values.
    pub open spec fn model(&self) -> StashModel {
        StashModel {
            open: self.open,
            filtered: entry_views(self.filtered@),
            selected: self.selected,
            search: self.search@,
            new_name: self.new_name_input@,
            mode: self.mode,
        }
    }

    /// A closed, empty stash, browsing.
    pub fn new() -> (s: Self)
        ensures
            !s.open && s.entries@.len() == 0 && s.filtered@.len() == 0,
            s.selected == 0 && s.scroll_offset == 0,
            s.search@.len() == 0 && s.new_name_input@.len() == 0,
            s.mode == StashMode::Browsing,
    {
        PromptStashState {
            open: false,
            entries: Vec::new(),
            filtered: Vec::new(),
            selected: 0,
            scroll_offset: 0,
            search: String::new(),
            new_name_input: String::new(),
            mode: StashMode::Browsing,
        }
    }

    /// Opens the dialog browsing every entry from the top.
    pub fn open(&mut self)
        ensures
            final(self).open && final(self).selected == 0 && final(self).scroll_offset == 0,
            final(self).search@.len() == 0 && final(self).new_name_input@.len() == 0,
            final(self).mode == StashMode::Browsing,
            final(self).entries == old(self).entries,
            entry_views(final(self).filtered@) == entry_views(old(self).entries@),
    {
        self.open = true;
        self.selected = 0;
        self.scroll_offset = 0;
        self.search = String::new();
        self.new_name_input = String::new();
        self.mode = StashMode::Browsing;
        self.apply_filter();
    }

    /// Closes the dialog.
    pub fn close(&mut self)
        ensures
            final(self).model() == (StashModel { open: false, ..old(self).model() }),
            final(self).entries == old(self).entries,
            final(self).scroll_offset == old(self).scroll_offset,
    {
        self.open = false;
    }

    /// Lists the entries matching the search, keeping the selection within the list.
    pub fn apply_filter(&mut self)
        ensures
            final(self).model() == filtered_m(entry_views(old(self).entries@), old(self).model()),
            final(self).entries == old(self).entries,
            final(self).scroll_offset == old(self).scroll_offset,
    {
        let ghost es = entry_views(self.entries@);
        let empty = self.search.unicode_len() == 0;
        let mut f: Vec<PromptStashEntry> = Vec::new();
        let mut i: usize = 0;
        while i < self.entries.len()
            invariant
                i <= self.entries@.len(),
                es == entry_views(self.entries@),
                empty == (self.search@.len() == 0),
                entry_views(f@) == stash_filtered(es.take(i as int), self.search@),
            decreases self.entries@.len() - i,
        {
            assert(es.take(i + 1).drop_last() =~= es.take(i as int));
            assert(es.take(i + 1).last() == entry_view(self.entries@[i as int]));
            let e = &self.entries[i];
            let keep = empty || {
                let q = to_lowercase(self.search.as_str());
                let n = to_lowercase(e.name.as_str());
                let c = to_lowercase(e.content.as_str());
                str_contains(n.as_str(), q.as_str()) || str_contains(c.as_str(), q.as_str())
            };
            let ghost before = f@;
            if keep {
                f.push(copy_entry(e));
                assert(entry_views(f@) =~= entry_views(before).push(entry_view(*e)));
            }
            proof {
                if empty {
                    assert(entry_views(f@) =~= es.take(i + 1));
                }
            }
            i = i + 1;
        }
        assert(es.take(self.entries@.len() as int) =~= es);
        self.filtered = f;
        let last = if self.filtered.len() > 0 {
            self.filtered.len() - 1
        } else {
            0
        };
        if self.selected > last {
            self.selected = last;
        }
    }

    /// Puts the entries read from the stash in place, newest update first, and lists them.
    pub fn set_entries(&mut self, loaded: Vec<PromptStashEntry>)
        ensures
            by_recency(entry_views(loaded@), entry_views(final(self).entries@)),
            final(self).model() == filtered_m(entry_views(final(self).entries@), old(self).model()),
    {
        let ghost lv = entry_views(loaded@);
        let n = loaded.len();
        let ghost rel = recency_order(lv);
        let le = |a: usize, b: usize| -> (r: bool)
            requires
                a < loaded@.len(),
                b < loaded@.len(),
            ensures
                r == (loaded@[a as int].updated_at >= loaded@[b as int].updated_at),
            { loaded[a].updated_at >= loaded[b].updated_at };
        proof {
            assert forall|a: usize, b: usize, r: bool|
                a < n && b < n && #[trigger] le.ensures((a, b), r) implies r == rel(a as int, b as int) by {
                assert(lv[a as int] == entry_view(loaded@[a as int]));
                assert(lv[b as int] == entry_view(loaded@[b as int]));
            }
        }
        let perm = stable_sort_indices(n, le, Ghost(rel));
        let mut sorted: Vec<PromptStashEntry> = Vec::new();
        let mut k: usize = 0;
        while k < n
            invariant
                n == loaded@.len(),
                perm@.len() == n,
                forall|j: int| 0 <= j < perm@.len() ==> #[trigger] perm@[j] < n,
                k <= n,
                sorted@.len() == k,
                forall|j: int| 0 <= j < k ==> entry_view(#[trigger] sorted@[j]) == entry_view(loaded@[perm@[j] as int]),
            decreases n - k,
        {
            sorted.push(copy_entry(&loaded[perm[k]]));
            k = k + 1;
        }
        proof {
            assert(is_stable_sort(rel, lv.len() as int, perm@));
            assert forall|j: int| 0 <= j < perm@.len() implies #[trigger] entry_views(sorted@)[j] == lv[perm@[j] as int] by {}
            assert(entry_views(sorted@).len() == perm@.len());
        }
        self.entries = sorted;
        self.apply_filter();
    }

    /// Saves a prompt at time `now`: an entry of the same name gets the content and `now` as
    /// its update time; otherwise a new entry is added last. The list is rebuilt. (Writing
    /// the stash is left to the caller.)
    pub fn save_new_at(&mut self, name: &str, content: &str, now: u128)
        ensures
            entry_views(final(self).entries@) == saved(entry_views(old(self).entries@), name@, content@, now),
            final(self).model() == filtered_m(entry_views(final(self).entries@), old(self).model()),
    {
        let ghost es = entry_views(self.entries@);
        let mut p: usize = 0;
        while p < self.entries.len() && !str_eq(self.entries[p].name.as_str(), name)
            invariant
                p <= self.entries@.len(),
                es == entry_views(self.entries@),
                position_of_name(es.take(p as int), name@) is None,
            decreases self.entries@.len() - p,
        {
            assert(es.take(p + 1).drop_last() =~= es.take(p as int));
            p = p + 1;
        }
        if p < self.entries.len() {
            proof {
                assert(es.take(p + 1).drop_last() =~= es.take(p as int));
                lemma_name_prefix(es, name@, p + 1);
            }
            let old_e = self.entries.remove(p);
            let e = PromptStashEntry {
                name: String::from_str(name),
                content: String::from_str(content),
                created_at: old_e.created_at,
                updated_at: now,
            };
            self.entries.insert(p, e);
            assert(entry_views(self.entries@) =~= es.update(p as int, (name@, content@, es[p as int].2, now)));
        } else {
            assert(es.take(p as int) =~= es);
            self.entries.push(
                PromptStashEntry {
                    name: String::from_str(name),
                    content: String::from_str(content),
                    created_at: now,
                    updated_at: now,
                },
            );
            assert(entry_views(self.entries@) =~= es.push((name@, content@, now, now)));
        }
        self.apply_filter();
    }

    /// Saves a prompt now (see `save_new_at`).
    pub fn save_new(&mut self, name: &str, content: &str)
        ensures
            exists|t: u128| entry_views(final(self).entries@) == #[trigger] saved(entry_views(old(self).entries@), name@, content@, t),
            final(self).model() == filtered_m(entry_views(final(self).entries@), old(self).model()),
    {
        let now = now_millis();
        self.save_new_at(name, content, now);
    }

    /// Takes out the entry at `idx` (when there is one) and lists again. (Removing its file
    /// is left to the caller.)
    pub fn delete_entry(&mut self, idx: usize)
        ensures
            idx < old(self).entries@.len() ==> entry_views(final(self).entries@) == entry_views(old(self).entries@).remove(idx as int)
                && final(self).model() == filtered_m(entry_views(final(self).entries@), old(self).model()),
            idx >= old(self).entries@.len() ==> *final(self) == *old(self),
    {
        if idx < self.entries.len() {
            let ghost es = entry_views(self.entries@);
            self.entries.remove(idx);
            assert(entry_views(self.entries@) =~= es.remove(idx as int));
            self.apply_filter();
        }
    }

    fn name_position(&self, name: &str) -> (r: Option<usize>)
        ensures
            match position_of_name(entry_views(self.entries@), name@) {
                Some(p) => r == Some(p as usize),
                None => r is None,
            },
    {
        let ghost es = entry_views(self.entries@);
        let mut p: usize = 0;
        while p < self.entries.len() && !str_eq(self.entries[p].name.as_str(), name)
            invariant
                p <= self.entries@.len(),
                es == entry_views(self.entries@),
                position_of_name(es.take(p as int), name@) is None,
            decreases self.entries@.len() - p,
        {
            assert(es.take(p + 1).drop_last() =~= es.take(p as int));
            p = p + 1;
        }
        if p < self.entries.len() {
            proof {
                assert(es.take(p + 1).drop_last() =~= es.take(p as int));
                lemma_name_prefix(es, name@, p + 1);
            }
            Some(p)
        } else {
            assert(es.take(p as int) =~= es);
            None
        }
    }

    /// Handles a key (see `stash_key_m`).
    pub fn handle_key(&mut self, key: KeyEvent) -> (a: StashAction)
        ensures
            (final(self).model(), outcome_of(a)) == stash_key_m(entry_views(old(self).entries@), old(self).model(), key),
            final(self).entries == old(self).entries,
            final(self).scroll_offset == old(self).scroll_offset,
    {
        let len = self.filtered.len();
        let last = if len > 0 {
            len - 1
        } else {
            0
        };
        let navigable = self.mode == StashMode::Browsing || self.mode == StashMode::SearchInput;
        if key.code == KeyCode::Esc || is_ctrl_char(&key, 'c') {
            self.close();
            return StashAction::Close;
        }
        if key.code == KeyCode::Enter {
            match self.mode {
                StashMode::ConfirmDelete(idx) => {
                    self.mode = StashMode::Browsing;
                    return StashAction::Delete(idx);
                },
                StashMode::CreateInput => {
                    let name = str_trim(self.new_name_input.as_str());
                    if name.unicode_len() == 0 {
                        return StashAction::Nothing;
                    } else {
                        return StashAction::SaveNew(name, String::new());
                    }
                },
                _ => {
                    if self.selected < self.filtered.len() {
                        let content = copy_string(&self.filtered[self.selected].content);
                        self.close();
                        return StashAction::Select(content);
                    } else {
                        return StashAction::Nothing;
                    }
                },
            }
        }
        if key.code == KeyCode::Up {
            if navigable && self.selected > 0 {
                self.selected = self.selected - 1;
            }
            return StashAction::Nothing;
        }
        if key.code == KeyCode::Down {
            if navigable && self.selected < last {
                self.selected = self.selected + 1;
            }
            return StashAction::Nothing;
        }
        if key.code == KeyCode::PageUp {
            if navigable {
                self.selected = if self.selected >= 10 {
                    self.selected - 10
                } else {
                    0
                };
            }
            return StashAction::Nothing;
        }
        if key.code == KeyCode::PageDown {
            if navigable {
                self.selected = if self.selected <= last && last - self.selected >= 10 {
                    self.selected + 10
                } else {
                    last
                };
            }
            return StashAction::Nothing;
        }
        if is_ctrl_char(&key, 'n') {
            self.new_name_input = String::new();
            self.mode = StashMode::CreateInput;
            return StashAction::Nothing;
        }
        if key.code == KeyCode::Delete || is_ctrl_char(&key, 'd') {
            match self.mode {
                StashMode::ConfirmDelete(idx) => {
                    self.mode = StashMode::Browsing;
                    return StashAction::Delete(idx);
                },
                _ => {
                    if self.selected < self.filtered.len() {
                        let pos = self.name_position(self.filtered[self.selected].name.as_str());
                        match pos {
                            Some(p) => {
                                self.mode = StashMode::ConfirmDelete(p);
                            },
                            None => {},
                        }
                    }
                    return StashAction::Nothing;
                },
            }
        }
        if key.code == KeyCode::Char('/') {
            if self.mode == StashMode::Browsing {
                self.search = String::new();
                self.mode = StashMode::SearchInput;
                return StashAction::StartSearch;
            } else {
                return StashAction::Nothing;
            }
        }
        if key.code == KeyCode::Backspace {
            match self.mode {
                StashMode::SearchInput => {
                    if self.search.unicode_len() > 0 {
                        let _ = pop_char(&mut self.search);
                        self.selected = 0;
                        self.apply_filter();
                    }
                },
                StashMode::CreateInput => {
                    let _ = pop_char(&mut self.new_name_input);
                },
                StashMode::Browsing => {
                    if self.search.unicode_len() > 0 {
                        self.search = String::new();
                        self.selected = 0;
                        self.apply_filter();
                    }
                },
                StashMode::ConfirmDelete(_) => {},
            }
            return StashAction::Nothing;
        }
        match key.code {
            KeyCode::Char(c) => {
                match self.mode {
                    StashMode::SearchInput => {
                        push_char(&mut self.search, c);
                        self.selected = 0;
                        self.apply_filter();
                    },
                    StashMode::CreateInput => {
                        push_char(&mut self.new_name_input, c);
                    },
                    StashMode::Browsing => {
                        self.search = String::new();
                        push_char(&mut self.search, c);
                        assert(self.search@ =~= seq![c]);
                        self.selected = 0;
                        self.mode = StashMode::SearchInput;
                        self.apply_filter();
                    },
                    StashMode::ConfirmDelete(_) => {},
                }
                StashAction::Nothing
            },
            _ => StashAction::Nothing,
        }
    }
}

/// A position found in a prefix is the first position of the name in the whole list.
pub proof fn lemma_name_prefix(es: Seq<(Seq<char>, Seq<char>, u128, u128)>, name: Seq<char>, k: int)
    requires
        0 <= k <= es.len(),
        position_of_name(es.take(k), name) is Some,
    ensures
        position_of_name(es, name) == position_of_name(es.take(k), name),
    decreases es.len() - k,
{
    if k < es.len() {
        assert(es.take(k + 1).drop_last() =~= es.take(k));
        lemma_name_prefix(es, name, k + 1);
    } else {
        assert(es.take(k) =~= es);
    }
}

impl Default for PromptStashState {
    fn default() -> (s: Self)
        ensures
            !s.open && s.entries@.len() == 0 && s.filtered@.len() == 0,
            s.selected == 0 && s.mode == StashMode::Browsing,
    {
        Self::new()
    }
}

// ---------------------------------------------------------------------------
// Display helpers
// ---------------------------------------------------------------------------

/// `k` characters of `s` start before byte `limit`, and no more.
pub open spec fn starts_before(s: Seq<char>, limit: int, k: int) -> bool {
    &&& 0 <= k <= s.len()
    &&& forall|j: int| 0 <= j < k ==> byte_len(#[trigger] s.take(j)) < limit
    &&& k < s.len() ==> byte_len(s.take(k)) >= limit
}

/// `s` cut to at most `max_len` bytes with `...` at the end: unchanged when it fits; `...`
/// alone when `max_len` is 3 or less; else the characters that start before byte
/// `max_len - 3`, then `...`.
pub open spec fn truncated(s: Seq<char>, max_len: int, r: Seq<char>) -> bool {
    if byte_len(s) <= max_len {
        r == s
    } else if max_len <= 3 {
        r == "..."@
    } else {
        exists|k: int| #[trigger] starts_before(s, max_len - 3, k) && r == s.take(k) + "..."@
    }
}

/// `s` cut to at most `max_len` bytes (see `truncated`).
pub fn truncate(s: &str, max_len: usize) -> (r: String)
    ensures
        truncated(s@, max_len as int, r@),
{
    let total = str_byte_len(s);
    if total <= max_len {
        return String::from_str(s);
    }
    if max_len <= 3 {
        return String::from_str("...");
    }
    let limit = max_len - 3;
    let v = chars_of(s);
    let mut i: usize = 0;
    let mut b: usize = 0;
    assert(v@.take(0) =~= Seq::<char>::empty());
    while i < v.len() && b < limit
        invariant
            v@ == s@,
            i <= v@.len(),
            b == byte_len(v@.take(i as int)),
            total == byte_len(v@),
            total <= isize::MAX,
            forall|j: int| 0 <= j < i ==> byte_len(#[trigger] v@.take(j)) < limit,
        decreases v@.len() - i,
    {
        proof {
            lemma_byte_len_step(v@, i as int);
            lemma_byte_len_prefix(v@, i + 1, v@.len() as int);
            assert(v@.take(v@.len() as int) =~= v@);
        }
        b = b + char_len_utf8(v[i]);
        i = i + 1;
    }
    let mut r = string_of_range(&v, 0, i);
    assert(v@.subrange(0, i as int) =~= v@.take(i as int));
    r.append("...");
    assert(starts_before(s@, limit as int, i as int));
    r
}

/// The first row shown in a list of `visible_lines` rows, scrolling only as far as needed to
/// show the selection.
pub fn compute_scroll_offset(state: &PromptStashState, visible_lines: usize) -> (r: usize)
    ensures
        r == if state.selected < state.scroll_offset {
            state.selected
        } else if visible_lines > 0 && state.selected - state.scroll_offset >= visible_lines - 1 {
            (state.selected - (visible_lines - 1)) as usize
        } else {
            state.scroll_offset
        },
{
    let pos = state.selected;
    if pos < state.scroll_offset {
        return pos;
    }
    if visible_lines > 0 && pos - state.scroll_offset >= visible_lines - 1 {
        return pos - (visible_lines - 1);
    }
    state.scroll_offset
}


// ---------------------------------------------------------------------------
// What the dialog shows
// ---------------------------------------------------------------------------

/// The input line and its tone: the name being typed when creating, a pending deletion,
/// else the search (or a prompt to type one).
pub open spec fn stash_input(s: PromptStashState) -> (Seq<char>, ViewTone) {
    match s.mode {
        StashMode::CreateInput => if s.new_name_input@.len() == 0 {
            ("Name for this prompt..."@, ViewTone::Muted)
        } else {
            ("> "@ + s.new_name_input@, ViewTone::Accent)
        },
        StashMode::ConfirmDelete(_) => ("\u{26a0} Delete confirmation pending..."@, ViewTone::Error),
        _ => if s.search@.len() == 0 {
            ("Type to search..."@, ViewTone::Muted)
        } else {
            ("> "@ + s.search@, ViewTone::Normal)
        },
    }
}

/// The key hint for a mode.
pub open spec fn stash_hint(mode: StashMode) -> Seq<char> {
    match mode {
        StashMode::CreateInput => "Enter: save  \u{2022}  Esc: cancel  \u{2022}  Type name for this prompt"@,
        StashMode::ConfirmDelete(_) => "Enter: confirm delete  \u{2022}  Esc: cancel  \u{2022}  Ctrl+D: confirm"@,
        _ => "Enter: use  \u{2022}  Ctrl+N: new  \u{2022}  Ctrl+D: delete  \u{2022}  /: search  \u{2022}  Esc: close"@,
    }
}

/// The first line of a text (empty when it has none).
pub open spec fn first_line(c: Seq<char>) -> Seq<char> {
    if text_lines(c).len() > 0 { text_lines(c)[0] } else { Seq::empty() }
}

/// Listed entry `i` is the one whose deletion is waiting for confirmation.
pub open spec fn stash_deleting(s: PromptStashState, i: int) -> bool {
    s.mode matches StashMode::ConfirmDelete(idx) && idx < s.entries@.len()
        && s.entries@[idx as int].name@ == s.filtered@[i].name@
}

/// Row `r` shows listed entry `i` at time `now`: a deletion question for the entry being
/// deleted, else its name (cut to 20 bytes) and the start of its first line (cut to 40
/// bytes); how long ago it was updated; selected when it is the selected entry.
pub open spec fn stash_row(s: PromptStashState, i: int, now: u128, r: RowModel) -> bool {
    let e = s.filtered@[i];
    &&& r.index == i && r.heading is None && r.selected == (i == s.selected) && r.warning == stash_deleting(s, i)
    &&& r.trailing == relative_time(e.updated_at, now)
    &&& if stash_deleting(s, i) {
        r.label == "\u{26a0} Delete '"@ + e.name@ + "'? (Enter to confirm) "@ && r.detail.len() == 0
    } else {
        truncated(e.name@, 20, r.label) && exists|p: Seq<char>|
            #[trigger] truncated(first_line(e.content@), 40, p) && r.detail == " - "@ + p + " "@
    }
}

/// `v` is what the dialog shows with room for `rows` rows at time `now`: its title, input
/// line, hint and footer (the number listed); with nothing listed and no name being typed, a
/// note in place of the list; otherwise the rows in view from the position that keeps the
/// selection in view.
pub open spec fn stash_view(s: PromptStashState, rows: usize, now: u128, v: ViewModel) -> bool {
    let len = s.filtered@.len();
    &&& v.title == " Prompt Stash "@
    &&& (v.input, v.input_tone) == stash_input(s)
    &&& v.hint == stash_hint(s.mode)
    &&& v.footer == " "@ + decimal(len as nat) + " prompt(s) "@
    &&& if len == 0 && s.mode != StashMode::CreateInput {
        &&& v.empty == Some(if s.search@.len() > 0 { "No matching stashed prompts"@ } else {
            "No stashed prompts yet. Press Ctrl+N to create one."@
        })
        &&& v.rows.len() == 0
        &&& v.scroll_offset == s.scroll_offset
    } else {
        &&& v.empty is None
        &&& v.scroll_offset == view_scroll(s.selected, s.scroll_offset, rows)
        &&& v.rows.len() == shown_count(v.scroll_offset, rows, len)
        &&& forall|k: int| 0 <= k < v.rows.len() ==> stash_row(s, v.scroll_offset + k, now, #[trigger] v.rows[k])
    }
}

fn stash_row_of(s: &PromptStashState, i: usize, now: u128) -> (r: ViewRow)
    requires
        i < s.filtered@.len(),
    ensures
        stash_row(*s, i as int, now, row_model(r)),
{
    let e = &s.filtered[i];
    let deleting = match s.mode {
        StashMode::ConfirmDelete(idx) => idx < s.entries.len() && str_eq(s.entries[idx].name.as_str(), e.name.as_str()),
        _ => false,
    };
    let trailing = format_relative_time_at(e.updated_at, now);
    if deleting {
        let label = concat3("\u{26a0} Delete '", e.name.as_str(), "'? (Enter to confirm) ");
        assert(stash_deleting(*s, i as int));
        ViewRow { index: i, heading: None, label, detail: String::new(), trailing, selected: i == s.selected, warning: true }
    } else {
        let label = truncate(e.name.as_str(), 20);
        let lines = lines_of(e.content.as_str());
        let first = if lines.len() > 0 { copy_string(&lines[0]) } else { String::new() };
        proof {
            assert(lines@.map_values(|l: String| l@).len() == lines@.len());
            if lines@.len() > 0 {
                assert(lines@.map_values(|l: String| l@)[0] == lines@[0]@);
            }
        }
        assert(first@ == first_line(e.content@));
        let preview = truncate(first.as_str(), 40);
        let detail = concat3(" - ", preview.as_str(), " ");
        assert(truncated(first_line(e.content@), 40, preview@));
        assert(detail@ == " - "@ + preview@ + " "@);
        ViewRow { index: i, heading: None, label, detail, trailing, selected: i == s.selected, warning: false }
    }
}

/// What the stash dialog shows with room for `rows` rows at time `now` (see `stash_view`).
pub fn stash_dialog_view(s: &PromptStashState, rows: usize, now: u128) -> (v: DialogView)
    ensures
        stash_view(*s, rows, now, v.model()),
{
    let input = match s.mode {
        StashMode::CreateInput => if s.new_name_input.unicode_len() == 0 {
            (String::from_str("Name for this prompt..."), ViewTone::Muted)
        } else {
            (concat("> ", s.new_name_input.as_str()), ViewTone::Accent)
        },
        StashMode::ConfirmDelete(_) => (String::from_str("\u{26a0} Delete confirmation pending..."), ViewTone::Error),
        _ => if s.search.unicode_len() == 0 {
            (String::from_str("Type to search..."), ViewTone::Muted)
        } else {
            (concat("> ", s.search.as_str()), ViewTone::Normal)
        },
    };
    let hint = match s.mode {
        StashMode::CreateInput => "Enter: save  \u{2022}  Esc: cancel  \u{2022}  Type name for this prompt",
        StashMode::ConfirmDelete(_) => "Enter: confirm delete  \u{2022}  Esc: cancel  \u{2022}  Ctrl+D: confirm",
        _ => "Enter: use  \u{2022}  Ctrl+N: new  \u{2022}  Ctrl+D: delete  \u{2022}  /: search  \u{2022}  Esc: close",
    };
    let len = s.filtered.len();
    let mut footer = String::from_str(" ");
    push_decimal(&mut footer, len as u128);
    footer.append(" prompt(s) ");
    let mut v = view_frame(" Prompt Stash ", input.0, input.1, hint, footer);
    if len == 0 && s.mode != StashMode::CreateInput {
        v.empty = Some(if s.search.unicode_len() > 0 {
            String::from_str("No matching stashed prompts")
        } else {
            String::from_str("No stashed prompts yet. Press Ctrl+N to create one.")
        });
        v.scroll_offset = s.scroll_offset;
        return v;
    }
    let off = view_scroll_offset(s.selected, s.scroll_offset, rows);
    v.scroll_offset = off;
    let mut i = off;
    while i < len && i - off < rows
        invariant
            len == s.filtered@.len(),
            off <= i,
            i - off <= rows,
            off >= len ==> i == off,
            off < len ==> i <= len,
            v.model().rows.len() == i - off,
            v.scroll_offset == off,
            off == view_scroll(s.selected, s.scroll_offset, rows),
            v.model().title == " Prompt Stash "@,
            (v.model().input, v.model().input_tone) == stash_input(*s),
            v.model().hint == stash_hint(s.mode),
            v.model().footer == " "@ + decimal(len as nat) + " prompt(s) "@,
            v.model().empty is None,
            forall|k: int| 0 <= k < v.model().rows.len() ==> stash_row(*s, off + k, now, #[trigger] v.model().rows[k]),
        decreases len - i,
    {
        let row = stash_row_of(s, i, now);
        let ghost before = v.model().rows;
        v.rows.push(row);
        assert(v.model().rows =~= before.push(row_model(row)));
        i = i + 1;
    }
    proof {
        if off >= len {
            assert(i == off);
        } else if i == len {
            assert(len - off <= rows);
        } else {
            assert(i - off == rows);
        }
    }
    v
}

} // verus!
