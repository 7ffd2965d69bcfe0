//! The sessions dialog: saved sessions, newest first, searched by id, title and branch,
//! switched to or deleted (after a second confirming key). Reading the sessions from disk
//! and deleting files are left to the caller; the keys are interpreted over a plain model
//! of the dialog (`SessModel`).
use vstd::prelude::*;
use crate::keys::{is_ctrl_char, KeyCode, KeyEvent, KeyModifiers};
use crate::session_files::{newest_first, order_newest_first};
use crate::sorting::is_stable_sort;
use crate::dialog_view::{shown_count, view_frame, view_scroll, view_scroll_offset, row_model, DialogView, RowModel, ViewModel, ViewRow, ViewTone};
use crate::listing::{format_relative_time_at, relative_time};
use crate::session_files::{category_label_at, category_of};
use crate::text::{decimal, push_decimal, concat, concat3, first_chars, has_prefix, str_starts_with, take_chars, contains_seq, copy_string, lowercase_of, pop_char, push_char, str_contains, str_eq, to_lowercase};

verus! {

/// One saved session.
#[derive(Debug, Clone)]
pub struct SessionEntry {
    pub id: String,
    pub title: String,
    pub path: std::path::PathBuf,
    pub modified: u128,
    pub message_count: usize,
    pub parent_id: Option<String>,
    pub branch_name: Option<String>,
    pub usage_summary: Option<String>,
}

/// The characters of an optional string.
pub open spec fn opt_view(o: Option<String>) -> Option<Seq<char>> {
    match o {
        Some(s) => Some(s@),
        None => None,
    }
}

/// A session as plain values.
pub struct SessView {
    pub id: Seq<char>,
    pub title: Seq<char>,
    pub path: std::path::PathBuf,
    pub modified: u128,
    pub message_count: usize,
    pub parent_id: Option<Seq<char>>,
    pub branch_name: Option<Seq<char>>,
    pub usage_summary: Option<Seq<char>>,
}

/// The plain values of a session.
pub open spec fn sess_view(e: SessionEntry) -> SessView {
    SessView {
        id: e.id@,
        title: e.title@,
        path: e.path,
        modified: e.modified,
        message_count: e.message_count,
        parent_id: opt_view(e.parent_id),
        branch_name: opt_view(e.branch_name),
        usage_summary: opt_view(e.usage_summary),
    }
}

/// The plain values of a list of sessions.
pub open spec fn sess_views(es: Seq<SessionEntry>) -> Seq<SessView> {
    es.map_values(|e: SessionEntry| sess_view(e))
}

/// A session matches a search when the lower-cased search occurs in its lower-cased id,
/// title or branch name.
pub open spec fn sess_matches(e: SessView, search: Seq<char>) -> bool {
    let q = lowercase_of(search);
    ||| contains_seq(lowercase_of(e.id), q)
    ||| contains_seq(lowercase_of(e.title), q)
    ||| (e.branch_name matches Some(b) && contains_seq(lowercase_of(b), q))
}

/// The sessions listed for a search: all with no search, else the matching ones, in order.
pub open spec fn sess_filtered(es: Seq<SessView>, search: Seq<char>) -> Seq<SessView>
    decreases es.len(),
{
    if search.len() == 0 {
        es
    } else if es.len() == 0 {
        Seq::empty()
    } else if sess_matches(es.last(), search) {
        sess_filtered(es.drop_last(), search).push(es.last())
    } else {
        sess_filtered(es.drop_last(), search)
    }
}

/// What a key asks of the caller.
#[derive(Debug)]
pub enum SessionAction {
    Nothing,
    Close,
    StartSearch,
    Switch(std::path::PathBuf),
    /// Delete the session file at this path, read the sessions again, and close.
    Delete(std::path::PathBuf),
}

/// The dialog as plain values.
pub struct SessModel {
    pub open: bool,
    pub filtered: Seq<SessView>,
    pub selected: usize,
    pub search: Seq<char>,
    pub confirm: Option<Seq<char>>,
}

/// An action as plain values.
pub enum SessOutcome {
    Nothing,
    Close,
    StartSearch,
    Switch(std::path::PathBuf),
    Delete(std::path::PathBuf),
}

/// The plain values of an action.
pub open spec fn sess_outcome(a: SessionAction) -> SessOutcome {
    match a {
        SessionAction::Nothing => SessOutcome::Nothing,
        SessionAction::Close => SessOutcome::Close,
        SessionAction::StartSearch => SessOutcome::StartSearch,
        SessionAction::Switch(p) => SessOutcome::Switch(p),
        SessionAction::Delete(p) => SessOutcome::Delete(p),
    }
}

/// The last listed row, or 0.
pub open spec fn last_of(len: nat) -> usize {
    if len > 0 { (len - 1) as usize } else { 0 }
}

/// `m` with the list rebuilt for its search over `es`, the selection kept within it.
pub open spec fn sess_refiltered(es: Seq<SessView>, m: SessModel) -> SessModel {
    let f = sess_filtered(es, m.search);
    SessModel { filtered: f, selected: if m.selected <= last_of(f.len()) { m.selected } else { last_of(f.len()) }, ..m }
}

/// The selected session is the one waiting for a confirming key.
pub open spec fn confirming(m: SessModel) -> bool {
    m.selected < m.filtered.len() && m.confirm == Some(m.filtered[m.selected as int].id)
}

/// A key over sessions `es`: Esc or Ctrl+C closes; `/` clears the search to start one;
/// Enter switches to the selected session, or deletes it when confirming; the movement keys
/// move and forget a pending deletion; backspace and characters edit the search; Delete or
/// Ctrl+D asks to confirm deleting the selected session, or confirms.
pub open spec fn sess_key_m(es: Seq<SessView>, m: SessModel, key: KeyEvent) -> (SessModel, SessOutcome) {
    let len = m.filtered.len();
    let sel = m.selected;
    if key.code == KeyCode::Esc || key.is_ctrl_char('c') {
        (SessModel { open: false, ..m }, SessOutcome::Close)
    } else if key.code == KeyCode::Char('/') {
        (SessModel { search: Seq::empty(), ..m }, SessOutcome::StartSearch)
    } else if key.code == KeyCode::Enter {
        if sel < len {
            if confirming(m) {
                (SessModel { confirm: None, ..m }, SessOutcome::Delete(m.filtered[sel as int].path))
            } else {
                (SessModel { open: false, ..m }, SessOutcome::Switch(m.filtered[sel as int].path))
            }
        } else {
            (m, SessOutcome::Nothing)
        }
    } else if key.code == KeyCode::Up {
        (SessModel { confirm: None, selected: if sel > 0 { (sel - 1) as usize } else { 0 }, ..m }, SessOutcome::Nothing)
    } else if key.code == KeyCode::Down {
        (SessModel { confirm: None, selected: if sel < last_of(len) { (sel + 1) as usize } else { sel }, ..m }, SessOutcome::Nothing)
    } else if key.code == KeyCode::PageUp {
        (SessModel { confirm: None, selected: if sel >= 10 { (sel - 10) as usize } else { 0 }, ..m }, SessOutcome::Nothing)
    } else if key.code == KeyCode::PageDown {
        (SessModel { confirm: None, selected: if sel + 10 <= last_of(len) { (sel + 10) as usize } else { last_of(len) }, ..m }, SessOutcome::Nothing)
    } else if key.code == KeyCode::Home {
        (SessModel { confirm: None, selected: 0, ..m }, SessOutcome::Nothing)
    } else if key.code == KeyCode::End {
        (SessModel { confirm: None, selected: last_of(len), ..m }, SessOutcome::Nothing)
    } else if key.code == KeyCode::Backspace {
        if m.search.len() > 0 {
            (sess_refiltered(es, SessModel { search: m.search.drop_last(), selected: 0, ..m }), SessOutcome::Nothing)
        } else {
            (m, SessOutcome::Nothing)
        }
    } else if key.code == KeyCode::Delete || key.is_ctrl_char('d') {
        if sel < len {
            if confirming(m) {
                (SessModel { confirm: None, ..m }, SessOutcome::Delete(m.filtered[sel as int].path))
            } else {
                (SessModel { confirm: Some(m.filtered[sel as int].id), ..m }, SessOutcome::Nothing)
            }
        } else {
            (m, SessOutcome::Nothing)
        }
    } else {
        match key.code {
            KeyCode::Char(c) => (
                sess_refiltered(es, SessModel { confirm: None, search: m.search.push(c), selected: 0, ..m }),
                SessOutcome::Nothing,
            ),
            _ => (m, SessOutcome::Nothing),
        }
    }
}

/// A session is deleted only once its deletion was asked for: a key that deletes finds the
/// selected session waiting for confirmation, and deletes that one. Asking with Delete and
/// confirming with Delete again deletes the selected session.
pub proof fn lemma_delete_needs_confirmation(es: Seq<SessView>, m: SessModel, key: KeyEvent, modifiers: KeyModifiers)
    ensures
        sess_key_m(es, m, key).1 matches SessOutcome::Delete(p) ==> confirming(m) && p == m.filtered[m.selected as int].path,
        ({
            let del = KeyEvent { code: KeyCode::Delete, modifiers };
            let asked = sess_key_m(es, m, del);
            m.selected < m.filtered.len() && !confirming(m) ==> {
                &&& asked.1 == SessOutcome::Nothing
                &&& confirming(asked.0)
                &&& sess_key_m(es, asked.0, del).1 == SessOutcome::Delete(m.filtered[m.selected as int].path)
            }
        }),
{
}

/// The state of the sessions dialog.
#[derive(Debug, Clone)]
pub struct SessionsDialogState {
    pub open: bool,
    pub sessions: Vec<SessionEntry>,
    pub filtered: Vec<SessionEntry>,
    pub selected: usize,
    pub scroll_offset: usize,
    pub search: String,
    pub delete_confirm: Option<String>,
}

fn copy_opt(o: &Option<String>) -> (r: Option<String>)
    ensures
        opt_view(r) == opt_view(*o),
{
    match o {
        Some(s) => Some(copy_string(s)),
        None => None,
    }
}

fn copy_session(e: &SessionEntry) -> (r: SessionEntry)
    ensures
        sess_view(r) == sess_view(*e),
{
    SessionEntry {
        id: copy_string(&e.id),
        title: copy_string(&e.title),
        path: e.path.clone(),
        modified: e.modified,
        message_count: e.message_count,
        parent_id: copy_opt(&e.parent_id),
        branch_name: copy_opt(&e.branch_name),
        usage_summary: copy_opt(&e.usage_summary),
    }
}

/// The order keys (modification time, id) of sessions.
pub open spec fn sess_keys(es: Seq<SessView>) -> Seq<(u128, Seq<char>)> {
    Seq::new(es.len(), |i: int| (es[i].modified, es[i].id))
}

/// `r` is `es` newest first (see `newest_first`).
pub open spec fn sessions_sorted(es: Seq<SessView>, r: Seq<SessView>) -> bool {
    exists|perm: Seq<usize>|
        #[trigger] is_stable_sort(newest_first(sess_keys(es)), es.len() as int, perm) && r.len() == perm.len()
            && forall|k: int| 0 <= k < perm.len() ==> #[trigger] r[k] == es[perm[k] as int]
}

impl SessionsDialogState {
    /// The dialog as plain values.
    pub open spec fn model(&self) -> SessModel {
        SessModel {
            open: self.open,
            filtered: sess_views(self.filtered@),
            selected: self.selected,
            search: self.search@,
            confirm: opt_view(self.delete_confirm),
        }
    }

    /// A closed dialog with no sessions.
    pub fn new() -> (s: Self)
        ensures
            !s.open && s.sessions@.len() == 0 && s.filtered@.len() == 0,
            s.selected == 0 && s.scroll_offset == 0 && s.search@.len() == 0,
            s.delete_confirm is None,
    {
        SessionsDialogState {
            open: false,
            sessions: Vec::new(),
            filtered: Vec::new(),
            selected: 0,
            scroll_offset: 0,
            search: String::new(),
            delete_confirm: None,
        }
    }

    /// Opens the dialog listing every session from the top.
    pub fn open(&mut self)
        ensures
            final(self).open && final(self).selected == 0 && final(self).scroll_offset == 0,
            final(self).search@.len() == 0 && final(self).delete_confirm is None,
            final(self).sessions == old(self).sessions,
            sess_views(final(self).filtered@) == sess_views(old(self).sessions@),
    {
        self.open = true;
        self.selected = 0;
        self.scroll_offset = 0;
        self.search = String::new();
        self.delete_confirm = None;
        self.apply_filter();
    }

    /// Closes the dialog.
    pub fn close(&mut self)
        ensures
            final(self).model() == (SessModel { open: false, ..old(self).model() }),
            final(self).sessions == old(self).sessions,
            final(self).scroll_offset == old(self).scroll_offset,
    {
        self.open = false;
    }

    /// Puts the sessions read from disk in place, newest first, and lists them.
    pub fn set_sessions(&mut self, loaded: Vec<SessionEntry>)
        ensures
            sessions_sorted(sess_views(loaded@), sess_views(final(self).sessions@)),
            final(self).model() == sess_refiltered(sess_views(final(self).sessions@), old(self).model()),
    {
        let ghost lv = sess_views(loaded@);
        let mut modified: Vec<u128> = Vec::new();
        let mut ids: Vec<String> = Vec::new();
        let mut i: usize = 0;
        while i < loaded.len()
            invariant
                i <= loaded@.len(),
                modified@.len() == i && ids@.len() == i,
                forall|k: int| 0 <= k < i ==> #[trigger] modified@[k] == loaded@[k].modified && ids@[k]@ == loaded@[k].id@,
            decreases loaded@.len() - i,
        {
            modified.push(loaded[i].modified);
            ids.push(copy_string(&loaded[i].id));
            i = i + 1;
        }
        let perm = order_newest_first(&modified, &ids);
        assert(Seq::new(ids@.len(), |i: int| (modified@[i], ids@[i]@)) =~= sess_keys(lv));
        let n = loaded.len();
        let mut sorted: Vec<SessionEntry> = Vec::new();
        let mut k: usize = 0;
        while k < n
            invariant
                n == loaded@.len(),
                perm@.len() == n,
                forall|j: int| 0 <= j < perm@.len() ==> #[trigger] perm@[j] < n,
                k <= n,
                sorted@.len() == k,
                forall|j: int| 0 <= j < k ==> sess_view(#[trigger] sorted@[j]) == sess_view(loaded@[perm@[j] as int]),
            decreases n - k,
        {
            sorted.push(copy_session(&loaded[perm[k]]));
            k = k + 1;
        }
        proof {
            assert forall|j: int| 0 <= j < perm@.len() implies #[trigger] sess_views(sorted@)[j] == lv[perm@[j] as int] by {}
            assert(sess_views(sorted@).len() == perm@.len());
        }
        self.sessions = sorted;
        self.apply_filter();
    }

    /// Lists the sessions matching the search, keeping the selection within the list.
    pub fn apply_filter(&mut self)
        ensures
            final(self).model() == sess_refiltered(sess_views(old(self).sessions@), old(self).model()),
            final(self).sessions == old(self).sessions,
            final(self).scroll_offset == old(self).scroll_offset,
    {
        let ghost es = sess_views(self.sessions@);
        let empty = self.search.unicode_len() == 0;
        let q = to_lowercase(self.search.as_str());
        let mut f: Vec<SessionEntry> = Vec::new();
        let mut i: usize = 0;
        while i < self.sessions.len()
            invariant
                i <= self.sessions@.len(),
                es == sess_views(self.sessions@),
                empty == (self.search@.len() == 0),
                q@ == lowercase_of(self.search@),
                sess_views(f@) == sess_filtered(es.take(i as int), self.search@),
            decreases self.sessions@.len() - i,
        {
            assert(es.take(i + 1).drop_last() =~= es.take(i as int));
            assert(es.take(i + 1).last() == sess_view(self.sessions@[i as int]));
            let e = &self.sessions[i];
            let keep = empty || {
                let id = to_lowercase(e.id.as_str());
                let title = to_lowercase(e.title.as_str());
                str_contains(id.as_str(), q.as_str()) || str_contains(title.as_str(), q.as_str()) || match &e.branch_name {
                    Some(b) => {
                        let bl = to_lowercase(b.as_str());
                        str_contains(bl.as_str(), q.as_str())
                    },
                    None => false,
                }
            };
            let ghost before = f@;
            if keep {
                f.push(copy_session(e));
                assert(sess_views(f@) =~= sess_views(before).push(sess_view(*e)));
            }
            proof {
                if empty {
                    assert(sess_views(f@) =~= es.take(i + 1));
                }
            }
            i = i + 1;
        }
        assert(es.take(self.sessions@.len() as int) =~= es);
        self.filtered = f;
        let last = if self.filtered.len() > 0 {
            self.filtered.len() - 1
        } else {
            0
        };
        if self.selected > last {
            self.selected = last;
        }
    }

    fn is_confirming(&self) -> (b: bool)
        ensures
            b == confirming(self.model()),
    {
        if self.selected < self.filtered.len() {
            match &self.delete_confirm {
                Some(id) => str_eq(id.as_str(), self.filtered[self.selected].id.as_str()),
                None => false,
            }
        } else {
            false
        }
    }

    /// Handles a key (see `sess_key_m`).
    pub fn handle_key(&mut self, key: KeyEvent) -> (a: SessionAction)
        ensures
            (final(self).model(), sess_outcome(a)) == sess_key_m(sess_views(old(self).sessions@), old(self).model(), key),
            final(self).sessions == old(self).sessions,
            final(self).scroll_offset == old(self).scroll_offset,
    {
        let len = self.filtered.len();
        let last = if len > 0 {
            len - 1
        } else {
            0
        };
        if key.code == KeyCode::Esc || is_ctrl_char(&key, 'c') {
            self.close();
            return SessionAction::Close;
        }
        if key.code == KeyCode::Char('/') {
            self.search = String::new();
            return SessionAction::StartSearch;
        }
        if key.code == KeyCode::Enter {
            if self.selected < len {
                if self.is_confirming() {
                    let path = self.filtered[self.selected].path.clone();
                    self.delete_confirm = None;
                    return SessionAction::Delete(path);
                }
                let path = self.filtered[self.selected].path.clone();
                self.close();
                return SessionAction::Switch(path);
            }
            return SessionAction::Nothing;
        }
        if key.code == KeyCode::Up {
            self.delete_confirm = None;
            if self.selected > 0 {
                self.selected = self.selected - 1;
            }
            return SessionAction::Nothing;
        }
        if key.code == KeyCode::Down {
            self.delete_confirm = None;
            if self.selected < last {
                self.selected = self.selected + 1;
            }
            return SessionAction::Nothing;
        }
        if key.code == KeyCode::PageUp {
            self.delete_confirm = None;
            self.selected = if self.selected >= 10 {
                self.selected - 10
            } else {
                0
            };
            return SessionAction::Nothing;
        }
        if key.code == KeyCode::PageDown {
            self.delete_confirm = None;
            self.selected = if self.selected <= last && last - self.selected >= 10 {
                self.selected + 10
            } else {
                last
            };
            return SessionAction::Nothing;
        }
        if key.code == KeyCode::Home {
            self.delete_confirm = None;
            self.selected = 0;
            return SessionAction::Nothing;
        }
        if key.code == KeyCode::End {
            self.delete_confirm = None;
            self.selected = last;
            return SessionAction::Nothing;
        }
        if key.code == KeyCode::Backspace {
            if self.search.unicode_len() > 0 {
                let _ = pop_char(&mut self.search);
                self.selected = 0;
                self.apply_filter();
            }
            return SessionAction::Nothing;
        }
        if key.code == KeyCode::Delete || is_ctrl_char(&key, 'd') {
            if self.selected < len {
                if self.is_confirming() {
                    let path = self.filtered[self.selected].path.clone();
                    self.delete_confirm = None;
                    return SessionAction::Delete(path);
                }
                self.delete_confirm = Some(copy_string(&self.filtered[self.selected].id));
            }
            return SessionAction::Nothing;
        }
        match key.code {
            KeyCode::Char(c) => {
                self.delete_confirm = None;
                push_char(&mut self.search, c);
                self.selected = 0;
                self.apply_filter();
                SessionAction::Nothing
            },
            _ => SessionAction::Nothing,
        }
    }
}

impl Default for SessionsDialogState {
    fn default() -> (s: Self)
        ensures
            !s.open && s.sessions@.len() == 0 && s.filtered@.len() == 0,
    {
        Self::new()
    }
}


// ---------------------------------------------------------------------------
// What the dialog shows
// ---------------------------------------------------------------------------

/// `s` cut to `max` characters, its end replaced by `...` when cut.
pub open spec fn cut_chars(s: Seq<char>, max: nat) -> Seq<char> {
    if s.len() <= max {
        s
    } else if max <= 3 {
        "..."@
    } else {
        s.take(max - 3) + "..."@
    }
}

/// `s` cut to `max` characters (see `cut_chars`).
pub fn truncate_chars(s: &str, max: usize) -> (r: String)
    ensures
        r@ == cut_chars(s@, max as nat),
{
    if s.unicode_len() <= max {
        String::from_str(s)
    } else if max <= 3 {
        String::from_str("...")
    } else {
        let head = take_chars(s, max - 3);
        concat(head.as_str(), "...")
    }
}

/// The text of a row: for an untitled session (`New session - ...`) its id cut to 20
/// characters, else its title cut to 32 and its id cut to 12 in brackets.
pub open spec fn session_label(e: SessView) -> Seq<char> {
    if has_prefix(e.title, "New session - "@) {
        cut_chars(e.id, 20)
    } else {
        cut_chars(e.title, 32) + "("@ + cut_chars(e.id, 12) + ") "@
    }
}

/// What follows a session's text: its message count, then its branch, the session it was
/// forked from and its usage, where it has them.
pub open spec fn session_detail(e: SessView) -> Seq<char> {
    " ("@ + decimal(e.message_count as nat) + " msgs) "@
        + (match e.branch_name { Some(b) => "on "@ + cut_chars(b, 16) + " "@, None => Seq::empty() })
        + (match e.parent_id { Some(p) => "\u{21aa}"@ + cut_chars(p, 12) + " "@, None => Seq::empty() })
        + (match e.usage_summary { Some(u) => "["@ + u + "] "@, None => Seq::empty() })
}

/// Row `r` shows listed session `i` (the first in view being `off`) at time `now`: the day
/// group heading where a group begins (and on the first row), a deletion question for the
/// session waiting for one, else its text and details, and how long ago it was changed.
pub open spec fn session_row(s: SessionsDialogState, off: int, i: int, now: u128, r: RowModel) -> bool {
    let es = sess_views(s.filtered@);
    let e = es[i];
    let deleting = opt_view(s.delete_confirm) == Some(e.id);
    &&& r.index == i && r.selected == (i == s.selected) && r.warning == deleting
    &&& r.heading == (if i == off || category_of(e.modified, now) != category_of(es[i - 1].modified, now) {
        Some("\u{2500}\u{2500} "@ + category_of(e.modified, now) + " \u{2500}\u{2500}"@)
    } else {
        None
    })
    &&& r.trailing == relative_time(e.modified, now)
    &&& if deleting {
        r.label == "\u{26a0} Delete "@ + e.id + "? (Ctrl+D to confirm) "@ && r.detail.len() == 0
    } else {
        r.label == session_label(e) && r.detail == session_detail(e)
    }
}

/// `v` is what the dialog shows with room for `rows` rows at time `now`: its title, the
/// search line, the hint and the footer (the number listed); with nothing listed, a note;
/// otherwise the rows in view from the position that keeps the selection in view.
pub open spec fn sessions_view(s: SessionsDialogState, rows: usize, now: u128, v: ViewModel) -> bool {
    let len = s.filtered@.len();
    &&& v.title == "Sessions"@
    &&& (v.input, v.input_tone) == (if s.search@.len() == 0 { ("Type to search..."@, ViewTone::Muted) } else {
        ("> "@ + s.search@, ViewTone::Normal)
    })
    &&& v.hint == "Enter: switch  \u{2022}  Ctrl+D: delete  \u{2022}  /: search  \u{2022}  Esc: close"@
    &&& v.footer == " "@ + decimal(len as nat) + " session(s) "@
    &&& if len == 0 {
        &&& v.empty == Some("No sessions found"@)
        &&& v.rows.len() == 0
        &&& v.scroll_offset == s.scroll_offset
    } else {
        &&& v.empty is None
        &&& v.scroll_offset == view_scroll(s.selected, s.scroll_offset, rows)
        &&& v.rows.len() == shown_count(v.scroll_offset, rows, len)
        &&& forall|k: int| 0 <= k < v.rows.len() ==> session_row(s, v.scroll_offset as int, v.scroll_offset + k, now, #[trigger] v.rows[k])
    }
}

fn opt_text(o: &Option<String>, before: &str, cut: usize, after: &str) -> (r: String)
    ensures
        r@ == match o { Some(t) => before@ + cut_chars(t@, cut as nat) + after@, None => Seq::empty() },
{
    match o {
        Some(t) => concat3(before, truncate_chars(t.as_str(), cut).as_str(), after),
        None => String::new(),
    }
}

fn session_row_of(s: &SessionsDialogState, off: usize, i: usize, now: u128) -> (r: ViewRow)
    requires
        off <= i < s.filtered@.len(),
    ensures
        session_row(*s, off as int, i as int, now, row_model(r)),
{
    let ghost es = sess_views(s.filtered@);
    let e = &s.filtered[i];
    assert(es[i as int] == sess_view(*e));
    let deleting = match &s.delete_confirm {
        Some(d) => str_eq(d.as_str(), e.id.as_str()),
        None => false,
    };
    let cat = category_label_at(e.modified, now);
    let heading = if i == off {
        Some(concat3("\u{2500}\u{2500} ", cat.as_str(), " \u{2500}\u{2500}"))
    } else {
        let prev = category_label_at(s.filtered[i - 1].modified, now);
        assert(es[i - 1] == sess_view(s.filtered@[i - 1]));
        if str_eq(prev.as_str(), cat.as_str()) {
            None
        } else {
            Some(concat3("\u{2500}\u{2500} ", cat.as_str(), " \u{2500}\u{2500}"))
        }
    };
    let trailing = format_relative_time_at(e.modified, now);
    if deleting {
        let label = concat3("\u{26a0} Delete ", e.id.as_str(), "? (Ctrl+D to confirm) ");
        return ViewRow { index: i, heading, label, detail: String::new(), trailing, selected: i == s.selected, warning: true };
    }
    let label = if str_starts_with(e.title.as_str(), "New session - ") {
        truncate_chars(e.id.as_str(), 20)
    } else {
        let t = truncate_chars(e.title.as_str(), 32);
        let id = truncate_chars(e.id.as_str(), 12);
        let mut l = concat3(t.as_str(), "(", id.as_str());
        l.append(") ");
        l
    };
    let mut detail = String::from_str(" (");
    push_decimal(&mut detail, e.message_count as u128);
    detail.append(" msgs) ");
    let b = opt_text(&e.branch_name, "on ", 16, " ");
    detail.append(b.as_str());
    let p = opt_text(&e.parent_id, "\u{21aa}", 12, " ");
    detail.append(p.as_str());
    let u = match &e.usage_summary {
        Some(u) => concat3("[", u.as_str(), "] "),
        None => String::new(),
    };
    detail.append(u.as_str());
    proof {
        assert(opt_view(e.branch_name) == es[i as int].branch_name);
        assert(detail@ =~= session_detail(es[i as int]));
    }
    ViewRow { index: i, heading, label, detail, trailing, selected: i == s.selected, warning: false }
}

/// What the sessions dialog shows with room for `rows` rows at time `now` (see
/// `sessions_view`). The caller keeps the scroll position shown.
pub fn sessions_dialog_view(s: &SessionsDialogState, rows: usize, now: u128) -> (v: DialogView)
    ensures
        sessions_view(*s, rows, now, v.model()),
{
    let input = if s.search.unicode_len() == 0 {
        (String::from_str("Type to search..."), ViewTone::Muted)
    } else {
        (concat("> ", s.search.as_str()), ViewTone::Normal)
    };
    let len = s.filtered.len();
    let mut footer = String::from_str(" ");
    push_decimal(&mut footer, len as u128);
    footer.append(" session(s) ");
    let mut v = view_frame(
        "Sessions",
        input.0,
        input.1,
        "Enter: switch  \u{2022}  Ctrl+D: delete  \u{2022}  /: search  \u{2022}  Esc: close",
        footer,
    );
    if len == 0 {
        v.empty = Some(String::from_str("No sessions found"));
        v.scroll_offset = s.scroll_offset;
        return v;
    }
    let off = view_scroll_offset(s.selected, s.scroll_offset, rows);
    v.scroll_offset = off;
    let mut i = off;
    while i < len && i - off < rows
        invariant
            len == s.filtered@.len(),
            off <= i,
            i - off <= rows,
            off >= len ==> i == off,
            off < len ==> i <= len,
            v.model().rows.len() == i - off,
            v.scroll_offset == off,
            off == view_scroll(s.selected, s.scroll_offset, rows),
            v.model().title == "Sessions"@,
            (v.model().input, v.model().input_tone) == (if s.search@.len() == 0 { ("Type to search..."@, ViewTone::Muted) } else {
                ("> "@ + s.search@, ViewTone::Normal)
            }),
            v.model().hint == "Enter: switch  \u{2022}  Ctrl+D: delete  \u{2022}  /: search  \u{2022}  Esc: close"@,
            v.model().footer == " "@ + decimal(len as nat) + " session(s) "@,
            v.model().empty is None,
            forall|k: int| 0 <= k < v.model().rows.len() ==> session_row(*s, off as int, off + k, now, #[trigger] v.model().rows[k]),
        decreases len - i,
    {
        let row = session_row_of(s, off, i, now);
        let ghost before = v.model().rows;
        v.rows.push(row);
        assert(v.model().rows =~= before.push(row_model(row)));
        i = i + 1;
    }
    proof {
        if off >= len {
            assert(i == off);
        } else if i == len {
            assert(len - off <= rows);
        } else {
            assert(i - off == rows);
        }
    }
    v
}

} // verus!
