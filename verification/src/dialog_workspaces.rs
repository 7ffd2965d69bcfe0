//! The workspaces dialog: directories holding sessions, most recently active first; search,
//! switch, create or delete (after confirming). Finding the directories on disk is left to
//! the caller, which hands in what it found; merging and ordering them is here. The keys are
//! interpreted over a plain model of the dialog (`WsModel`).
use vstd::prelude::*;
use crate::file_picker::{is_subsequence, subseq_from};
use crate::keys::{is_ctrl_char, KeyCode, KeyEvent};
use crate::sorting::{is_stable_sort, stable_sort_indices};
use crate::dialog_view::{shown_count, view_frame, view_scroll, view_scroll_offset, row_model, DialogView, RowModel, ViewModel, ViewRow, ViewTone};
use crate::listing::{format_relative_time_at, relative_time};
use crate::text::{
    decimal, push_decimal, concat, byte_len, char_len_utf8, chars_of, copy_string, lowercase_of, pop_char, push_char, str_byte_len, str_eq,
    string_of_range, to_lowercase, utf8_len,
};

verus! {

/// A directory holding sessions.
#[derive(Debug, Clone)]
pub struct WorkspaceEntry {
    /// The directory, as text.
    pub path: String,
    pub last_active: u128,
    pub session_count: usize,
}

/// What the dialog is doing.
#[derive(Debug, Clone, Copy, PartialEq, Eq, Structural)]
pub enum WorkspaceDialogMode {
    /// Browsing and searching.
    Listing,
    /// Confirming the deletion of the listed workspace at this row.
    ConfirmDelete(usize),
    /// Typing the path of a new workspace.
    EnterCreatePath,
}

/// What a key asks of the caller.
#[derive(Debug)]
pub enum WorkspaceAction {
    Nothing,
    Close,
    Switch(String),
    StartSearch,
    Delete(String),
    Create(String),
}

// ---------------------------------------------------------------------------
// Matching a path
// ---------------------------------------------------------------------------

/// The first position from `start` on where `h` holds `c`.
pub open spec fn first_from(h: Seq<char>, c: char, start: int) -> Option<int>
    decreases h.len() - start,
{
    if start < 0 || start >= h.len() {
        None
    } else if h[start] == c {
        Some(start)
    } else {
        first_from(h, c, start + 1)
    }
}

/// The characters of `q` from `qi` on are found in `h` in order, each at the first place
/// after the previous one, no further than `limit` characters in.
pub open spec fn ws_match_from(q: Seq<char>, h: Seq<char>, limit: int, qi: int, hi: int) -> bool
    decreases q.len() - qi,
{
    if qi < 0 || qi >= q.len() {
        true
    } else {
        match first_from(h, q[qi], hi) {
            None => false,
            Some(j) => if j + 1 > limit {
                false
            } else {
                ws_match_from(q, h, limit, qi + 1, j + 1)
            },
        }
    }
}

/// A path matches a query when the query's characters appear in it in order, within as
/// many characters as its lower-cased form has.
pub open spec fn ws_match(query: Seq<char>, haystack: Seq<char>) -> bool {
    ws_match_from(query, haystack, lowercase_of(haystack).len() as int, 0, 0)
}

proof fn lemma_first_from_range(h: Seq<char>, c: char, start: int)
    ensures
        first_from(h, c, start) matches Some(j) ==> start <= j < h.len() && h[j] == c,
    decreases h.len() - start,
{
    if 0 <= start < h.len() && h[start] != c {
        lemma_first_from_range(h, c, start + 1);
    }
}

proof fn lemma_subseq_first(q: Seq<char>, h: Seq<char>, qi: int, hi: int)
    requires
        0 <= qi < q.len(),
        0 <= hi,
    ensures
        subseq_from(q, h, qi, hi) == match first_from(h, q[qi], hi) {
            None => false,
            Some(j) => subseq_from(q, h, qi + 1, j + 1),
        },
    decreases h.len() - hi,
{
    if hi < h.len() && h[hi] != q[qi] {
        lemma_subseq_first(q, h, qi, hi + 1);
    }
}

/// With room for the whole path, matching a path is finding the query in it in order.
proof fn lemma_ws_subseq(q: Seq<char>, h: Seq<char>, limit: int, qi: int, hi: int)
    requires
        limit >= h.len(),
        0 <= qi,
        0 <= hi,
    ensures
        ws_match_from(q, h, limit, qi, hi) == subseq_from(q, h, qi, hi),
    decreases q.len() - qi,
{
    if qi < q.len() {
        lemma_subseq_first(q, h, qi, hi);
        lemma_first_from_range(h, q[qi], hi);
        if let Some(j) = first_from(h, q[qi], hi) {
            lemma_ws_subseq(q, h, limit, qi + 1, j + 1);
        }
    }
}

/// Whether `haystack` matches `query` (see `ws_match`).
pub fn fuzzy_match(query: &str, haystack: &str) -> (b: bool)
    ensures
        b == ws_match(query@, haystack@),
        b == is_subsequence(query@, haystack@),
{
    let q = chars_of(query);
    let h = chars_of(haystack);
    let hl = to_lowercase(haystack);
    let limit = hl.unicode_len();
    proof {
        lemma_ws_subseq(query@, haystack@, limit as int, 0, 0);
    }
    let mut qi: usize = 0;
    let mut hi: usize = 0;
    while qi < q.len()
        invariant
            q@ == query@,
            h@ == haystack@,
            limit == lowercase_of(haystack@).len(),
            qi <= q@.len(),
            hi <= h@.len(),
            ws_match_from(q@, h@, limit as int, qi as int, hi as int) == ws_match(query@, haystack@),
            ws_match(query@, haystack@) == is_subsequence(query@, haystack@),
        decreases q@.len() - qi,
    {
        let mut j = hi;
        while j < h.len() && h[j] != q[qi]
            invariant
                hi <= j <= h@.len(),
                qi < q@.len(),
                first_from(h@, q@[qi as int], j as int) == first_from(h@, q@[qi as int], hi as int),
            decreases h@.len() - j,
        {
            j = j + 1;
        }
        if j == h.len() {
            return false;
        }
        if j >= limit {
            return false;
        }
        qi = qi + 1;
        hi = j + 1;
    }
    true
}

// ---------------------------------------------------------------------------
// Merging what was found
// ---------------------------------------------------------------------------

/// A workspace as plain values: path, last activity, number of sessions.
pub open spec fn ws_view(e: WorkspaceEntry) -> (Seq<char>, u128, usize) {
    (e.path@, e.last_active, e.session_count)
}

/// The plain values of a list of workspaces.
pub open spec fn ws_views(es: Seq<WorkspaceEntry>) -> Seq<(Seq<char>, u128, usize)> {
    es.map_values(|e: WorkspaceEntry| ws_view(e))
}

/// The position of the workspace with path `p`.
pub open spec fn ws_position(ws: Seq<(Seq<char>, u128, usize)>, p: Seq<char>) -> Option<int>
    decreases ws.len(),
{
    if ws.len() == 0 {
        None
    } else {
        match ws_position(ws.drop_last(), p) {
            Some(i) => Some(i),
            None => if ws.last().0 == p {
                Some(ws.len() - 1)
            } else {
                None
            },
        }
    }
}

/// `ws` with `c` merged in: a workspace of the same path gains its sessions and keeps the
/// later activity; otherwise `c` is added last.
pub open spec fn merge_one(ws: Seq<(Seq<char>, u128, usize)>, c: (Seq<char>, u128, usize)) -> Seq<(Seq<char>, u128, usize)> {
    match ws_position(ws, c.0) {
        Some(i) => ws.update(i, (ws[i].0, if c.1 > ws[i].1 { c.1 } else { ws[i].1 }, (ws[i].2 + c.2) as usize)),
        None => ws.push(c),
    }
}

/// The found workspaces merged in order.
pub open spec fn merged(cs: Seq<(Seq<char>, u128, usize)>) -> Seq<(Seq<char>, u128, usize)>
    decreases cs.len(),
{
    if cs.len() == 0 {
        Seq::empty()
    } else {
        merge_one(merged(cs.drop_last()), cs.last())
    }
}

/// The total number of sessions found.
pub open spec fn count_sum(cs: Seq<(Seq<char>, u128, usize)>) -> int
    decreases cs.len(),
{
    if cs.len() == 0 {
        0
    } else {
        count_sum(cs.drop_last()) + cs.last().2
    }
}

proof fn lemma_count_nonneg(cs: Seq<(Seq<char>, u128, usize)>)
    ensures
        count_sum(cs) >= 0,
    decreases cs.len(),
{
    if cs.len() > 0 {
        lemma_count_nonneg(cs.drop_last());
    }
}

proof fn lemma_count_prefix(cs: Seq<(Seq<char>, u128, usize)>, k: int)
    requires
        0 <= k <= cs.len(),
    ensures
        count_sum(cs.take(k)) <= count_sum(cs),
    decreases cs.len() - k,
{
    if k < cs.len() {
        lemma_count_prefix(cs, k + 1);
        assert(cs.take(k + 1).drop_last() =~= cs.take(k));
    } else {
        assert(cs.take(k) =~= cs);
    }
}

/// The order on workspaces by last activity, latest first, by position.
pub open spec fn recent_first(ws: Seq<(Seq<char>, u128, usize)>) -> spec_fn(int, int) -> bool {
    |i: int, j: int| ws[i].1 >= ws[j].1
}

/// `r` is `ws` latest activity first, ties in their order.
pub open spec fn ws_sorted(ws: Seq<(Seq<char>, u128, usize)>, r: Seq<(Seq<char>, u128, usize)>) -> bool {
    exists|perm: Seq<usize>|
        #[trigger] is_stable_sort(recent_first(ws), ws.len() as int, perm) && r.len() == perm.len()
            && forall|k: int| 0 <= k < perm.len() ==> #[trigger] r[k] == ws[perm[k] as int]
}

fn copy_ws(e: &WorkspaceEntry) -> (r: WorkspaceEntry)
    ensures
        ws_view(r) == ws_view(*e),
{
    WorkspaceEntry { path: copy_string(&e.path), last_active: e.last_active, session_count: e.session_count }
}

/// Merges the workspaces found (see `merge_one`) and orders them by last activity.
pub fn merge_workspaces(found: &Vec<WorkspaceEntry>) -> (r: Vec<WorkspaceEntry>)
    requires
        count_sum(ws_views(found@)) <= usize::MAX,
    ensures
        ws_sorted(merged(ws_views(found@)), ws_views(r@)),
{
    let ghost cs = ws_views(found@);
    let mut ws: Vec<WorkspaceEntry> = Vec::new();
    let mut i: usize = 0;
    while i < found.len()
        invariant
            i <= found@.len(),
            cs == ws_views(found@),
            count_sum(cs) <= usize::MAX,
            ws_views(ws@) == merged(cs.take(i as int)),
            forall|k: int| 0 <= k < ws@.len() ==> #[trigger] ws_views(ws@)[k].2 <= count_sum(cs.take(i as int)),
        decreases found@.len() - i,
    {
        proof {
            assert(cs.take(i + 1).drop_last() =~= cs.take(i as int));
            assert(cs.take(i + 1).last() == ws_view(found@[i as int]));
            lemma_count_prefix(cs, i + 1);
            lemma_count_nonneg(cs.take(i as int));
            assert(count_sum(cs.take(i + 1)) == count_sum(cs.take(i as int)) + cs[i as int].2);
        }
        let c = &found[i];
        let ghost wv = ws_views(ws@);
        let mut p: usize = 0;
        while p < ws.len() && !str_eq(ws[p].path.as_str(), c.path.as_str())
            invariant
                p <= ws@.len(),
                wv == ws_views(ws@),
                ws_position(wv.take(p as int), c.path@) is None,
            decreases ws@.len() - p,
        {
            assert(wv.take(p + 1).drop_last() =~= wv.take(p as int));
            p = p + 1;
        }
        if p < ws.len() {
            proof {
                assert(wv.take(p + 1).drop_last() =~= wv.take(p as int));
                lemma_ws_prefix(wv, c.path@, p + 1);
            }
            assert(ws_views(ws@)[p as int].2 <= count_sum(cs.take(i as int)));
            let old_e = ws.remove(p);
            let last_active = if c.last_active > old_e.last_active {
                c.last_active
            } else {
                old_e.last_active
            };
            let e = WorkspaceEntry {
                path: old_e.path,
                last_active,
                session_count: old_e.session_count + c.session_count,
            };
            ws.insert(p, e);
            assert(ws_views(ws@) =~= merge_one(wv, ws_view(*c)));
            assert forall|k: int| 0 <= k < ws@.len() implies #[trigger] ws_views(ws@)[k].2 <= count_sum(cs.take(i + 1)) by {
                if k != p {
                    assert(ws_views(ws@)[k] == wv[k]);
                }
            }
        } else {
            assert(wv.take(p as int) =~= wv);
            ws.push(copy_ws(c));
            assert(ws_views(ws@) =~= merge_one(wv, ws_view(*c)));
            assert forall|k: int| 0 <= k < ws@.len() implies #[trigger] ws_views(ws@)[k].2 <= count_sum(cs.take(i + 1)) by {
                if k < wv.len() {
                    assert(ws_views(ws@)[k] == wv[k]);
                }
            }
        }
        i = i + 1;
    }
    assert(cs.take(found@.len() as int) =~= cs);
    let ghost mv = ws_views(ws@);
    let n = ws.len();
    let ghost rel = recent_first(mv);
    let le = |a: usize, b: usize| -> (r: bool)
        requires
            a < ws@.len(),
            b < ws@.len(),
        ensures
            r == (ws@[a as int].last_active >= ws@[b as int].last_active),
        { ws[a].last_active >= ws[b].last_active };
    proof {
        assert forall|a: usize, b: usize, r: bool|
            a < n && b < n && #[trigger] le.ensures((a, b), r) implies r == rel(a as int, b as int) by {
            assert(mv[a as int] == ws_view(ws@[a as int]));
            assert(mv[b as int] == ws_view(ws@[b as int]));
        }
    }
    let perm = stable_sort_indices(n, le, Ghost(rel));
    let mut r: Vec<WorkspaceEntry> = Vec::new();
    let mut k: usize = 0;
    while k < n
        invariant
            n == ws@.len(),
            perm@.len() == n,
            forall|j: int| 0 <= j < perm@.len() ==> #[trigger] perm@[j] < n,
            k <= n,
            r@.len() == k,
            forall|j: int| 0 <= j < k ==> ws_view(#[trigger] r@[j]) == ws_view(ws@[perm@[j] as int]),
        decreases n - k,
    {
        r.push(copy_ws(&ws[perm[k]]));
        k = k + 1;
    }
    proof {
        assert(is_stable_sort(rel, mv.len() as int, perm@));
        assert forall|j: int| 0 <= j < perm@.len() implies #[trigger] ws_views(r@)[j] == mv[perm@[j] as int] by {}
        assert(ws_views(r@).len() == perm@.len());
    }
    r
}

/// A position found in a prefix is the first position of the path in the whole list.
pub proof fn lemma_ws_prefix(ws: Seq<(Seq<char>, u128, usize)>, p: Seq<char>, k: int)
    requires
        0 <= k <= ws.len(),
        ws_position(ws.take(k), p) is Some,
    ensures
        ws_position(ws, p) == ws_position(ws.take(k), p),
    decreases ws.len() - k,
{
    if k < ws.len() {
        assert(ws.take(k + 1).drop_last() =~= ws.take(k));
        lemma_ws_prefix(ws, p, k + 1);
    } else {
        assert(ws.take(k) =~= ws);
    }
}

// ---------------------------------------------------------------------------
// The dialog
// ---------------------------------------------------------------------------

/// The workspaces listed for a search: all with no search, else those matching the
/// lower-cased search, in order.
pub open spec fn ws_filtered(ws: Seq<(Seq<char>, u128, usize)>, search: Seq<char>) -> Seq<(Seq<char>, u128, usize)>
    decreases ws.len(),
{
    if search.len() == 0 {
        ws
    } else if ws.len() == 0 {
        Seq::empty()
    } else if ws_match(lowercase_of(search), ws.last().0) {
        ws_filtered(ws.drop_last(), search).push(ws.last())
    } else {
        ws_filtered(ws.drop_last(), search)
    }
}

/// The dialog as plain values.
pub struct WsModel {
    pub open: bool,
    pub filtered: Seq<(Seq<char>, u128, usize)>,
    pub selected: usize,
    pub search: Seq<char>,
    pub mode: WorkspaceDialogMode,
    pub create: Seq<char>,
}

/// An action as plain values.
pub enum WsOutcome {
    Nothing,
    Close,
    Switch(Seq<char>),
    StartSearch,
    Delete(Seq<char>),
    Create(Seq<char>),
}

/// The plain values of an action.
pub open spec fn ws_outcome(a: WorkspaceAction) -> WsOutcome {
    match a {
        WorkspaceAction::Nothing => WsOutcome::Nothing,
        WorkspaceAction::Close => WsOutcome::Close,
        WorkspaceAction::Switch(s) => WsOutcome::Switch(s@),
        WorkspaceAction::StartSearch => WsOutcome::StartSearch,
        WorkspaceAction::Delete(s) => WsOutcome::Delete(s@),
        WorkspaceAction::Create(s) => WsOutcome::Create(s@),
    }
}

/// The last row, or 0.
pub open spec fn last_of(len: nat) -> usize {
    if len > 0 { (len - 1) as usize } else { 0 }
}

/// `m` with the list rebuilt for its search over `ws`, the selection kept within it.
pub open spec fn ws_refiltered(ws: Seq<(Seq<char>, u128, usize)>, m: WsModel) -> WsModel {
    let f = ws_filtered(ws, m.search);
    WsModel { filtered: f, selected: if m.selected <= last_of(f.len()) { m.selected } else { last_of(f.len()) }, ..m }
}

/// `m` closed: browsing, nothing being typed.
pub open spec fn ws_closed(m: WsModel) -> WsModel {
    WsModel { open: false, mode: WorkspaceDialogMode::Listing, create: Seq::empty(), ..m }
}

/// A key over workspaces `ws`. While typing a new path: Esc or Ctrl+C cancels, Enter
/// creates it (if not empty), characters and backspace edit it. While confirming a
/// deletion: Esc, Ctrl+C or `n` cancels, `y` or Enter deletes. Otherwise: Esc or Ctrl+C
/// closes; Enter switches to the selected workspace; the movement keys move; `/` clears the
/// search to start one; Delete asks to confirm deleting the selected workspace; `n` starts
/// typing a new path; backspace and characters edit the search.
pub open spec fn ws_key_m(ws: Seq<(Seq<char>, u128, usize)>, m: WsModel, key: KeyEvent) -> (WsModel, WsOutcome) {
    let len = m.filtered.len();
    let sel = m.selected;
    let cancel = key.code == KeyCode::Esc || key.is_ctrl_char('c');
    match m.mode {
        WorkspaceDialogMode::EnterCreatePath => if cancel {
            (WsModel { mode: WorkspaceDialogMode::Listing, create: Seq::empty(), ..m }, WsOutcome::Nothing)
        } else {
            match key.code {
                KeyCode::Enter => {
                    let done = WsModel { mode: WorkspaceDialogMode::Listing, create: Seq::empty(), ..m };
                    if m.create.len() == 0 {
                        (done, WsOutcome::Nothing)
                    } else {
                        (done, WsOutcome::Create(m.create))
                    }
                },
                KeyCode::Char(c) => (WsModel { create: m.create.push(c), ..m }, WsOutcome::Nothing),
                KeyCode::Backspace => (
                    WsModel { create: if m.create.len() > 0 { m.create.drop_last() } else { m.create }, ..m },
                    WsOutcome::Nothing,
                ),
                _ => (m, WsOutcome::Nothing),
            }
        },
        WorkspaceDialogMode::ConfirmDelete(idx) => if cancel || key.code == KeyCode::Char('n') {
            (WsModel { mode: WorkspaceDialogMode::Listing, ..m }, WsOutcome::Nothing)
        } else if key.code == KeyCode::Char('y') || key.code == KeyCode::Enter {
            if idx < len {
                (WsModel { mode: WorkspaceDialogMode::Listing, ..m }, WsOutcome::Delete(m.filtered[idx as int].0))
            } else {
                (WsModel { mode: WorkspaceDialogMode::Listing, ..m }, WsOutcome::Nothing)
            }
        } else {
            (m, WsOutcome::Nothing)
        },
        WorkspaceDialogMode::Listing => if cancel {
            (ws_closed(m), WsOutcome::Close)
        } else {
            match key.code {
                KeyCode::Enter => if sel < len {
                    (ws_closed(m), WsOutcome::Switch(m.filtered[sel as int].0))
                } else {
                    (m, WsOutcome::Nothing)
                },
                KeyCode::Up => (WsModel { selected: if sel > 0 { (sel - 1) as usize } else { 0 }, ..m }, WsOutcome::Nothing),
                KeyCode::Down => (WsModel { selected: if sel < last_of(len) { (sel + 1) as usize } else { sel }, ..m }, WsOutcome::Nothing),
                KeyCode::PageUp => (WsModel { selected: if sel >= 10 { (sel - 10) as usize } else { 0 }, ..m }, WsOutcome::Nothing),
                KeyCode::PageDown => (
                    WsModel { selected: if sel + 10 <= last_of(len) { (sel + 10) as usize } else { last_of(len) }, ..m },
                    WsOutcome::Nothing,
                ),
                KeyCode::Home => (WsModel { selected: 0, ..m }, WsOutcome::Nothing),
                KeyCode::End => (WsModel { selected: last_of(len), ..m }, WsOutcome::Nothing),
                KeyCode::Delete => if len > 0 {
                    (WsModel { mode: WorkspaceDialogMode::ConfirmDelete(sel), ..m }, WsOutcome::Nothing)
                } else {
                    (m, WsOutcome::Nothing)
                },
                KeyCode::Backspace => if m.search.len() > 0 {
                    (ws_refiltered(ws, WsModel { search: m.search.drop_last(), selected: 0, ..m }), WsOutcome::Nothing)
                } else {
                    (m, WsOutcome::Nothing)
                },
                KeyCode::Char(c) => if c == '/' {
                    (WsModel { search: Seq::empty(), ..m }, WsOutcome::StartSearch)
                } else if c == 'n' {
                    (WsModel { mode: WorkspaceDialogMode::EnterCreatePath, create: Seq::empty(), ..m }, WsOutcome::Nothing)
                } else {
                    (ws_refiltered(ws, WsModel { search: m.search.push(c), selected: 0, ..m }), WsOutcome::Nothing)
                },
                _ => (m, WsOutcome::Nothing),
            }
        },
    }
}

/// A workspace is deleted only once its deletion was asked for: a key that deletes finds
/// the dialog confirming the deletion of a listed workspace, and deletes that one.
pub proof fn lemma_delete_needs_confirmation(ws: Seq<(Seq<char>, u128, usize)>, m: WsModel, key: KeyEvent)
    ensures
        ws_key_m(ws, m, key).1 matches WsOutcome::Delete(p) ==> (m.mode matches WorkspaceDialogMode::ConfirmDelete(idx)
            && idx < m.filtered.len() && p == m.filtered[idx as int].0),
{
}

/// The state of the workspaces dialog.
#[derive(Debug, Clone)]
pub struct WorkspaceDialogState {
    pub open: bool,
    pub workspaces: Vec<WorkspaceEntry>,
    pub filtered: Vec<WorkspaceEntry>,
    pub selected: usize,
    pub scroll_offset: usize,
    pub search: String,
    pub mode: WorkspaceDialogMode,
    pub create_input: String,
}

impl WorkspaceDialogState {
    /// The dialog as plain values.
    pub open spec fn model(&self) -> WsModel {
        WsModel {
            open: self.open,
            filtered: ws_views(self.filtered@),
            selected: self.selected,
            search: self.search@,
            mode: self.mode,
            create: self.create_input@,
        }
    }

    /// A closed dialog with no workspaces.
    pub fn new() -> (s: Self)
        ensures
            !s.open && s.workspaces@.len() == 0 && s.filtered@.len() == 0,
            s.selected == 0 && s.scroll_offset == 0 && s.search@.len() == 0,
            s.mode == WorkspaceDialogMode::Listing && s.create_input@.len() == 0,
    {
        WorkspaceDialogState {
            open: false,
            workspaces: Vec::new(),
            filtered: Vec::new(),
            selected: 0,
            scroll_offset: 0,
            search: String::new(),
            mode: WorkspaceDialogMode::Listing,
            create_input: String::new(),
        }
    }

    /// Opens the dialog over the workspaces found now, listing all of them from the top.
    pub fn open(&mut self, found: Vec<WorkspaceEntry>)
        requires
            count_sum(ws_views(found@)) <= usize::MAX,
        ensures
            final(self).open && final(self).selected == 0 && final(self).scroll_offset == 0,
            final(self).search@.len() == 0 && final(self).create_input@.len() == 0,
            final(self).mode == WorkspaceDialogMode::Listing,
            ws_sorted(merged(ws_views(found@)), ws_views(final(self).workspaces@)),
            ws_views(final(self).filtered@) == ws_views(final(self).workspaces@),
    {
        self.open = true;
        self.selected = 0;
        self.scroll_offset = 0;
        self.search = String::new();
        self.mode = WorkspaceDialogMode::Listing;
        self.create_input = String::new();
        self.scan_workspaces(found);
        self.apply_filter();
    }

    /// Closes the dialog, back to browsing.
    pub fn close(&mut self)
        ensures
            final(self).model() == ws_closed(old(self).model()),
            final(self).workspaces == old(self).workspaces,
            final(self).scroll_offset == old(self).scroll_offset,
    {
        self.open = false;
        self.mode = WorkspaceDialogMode::Listing;
        self.create_input = String::new();
    }

    /// Puts in place the workspaces found (merged, latest activity first).
    pub fn scan_workspaces(&mut self, found: Vec<WorkspaceEntry>)
        requires
            count_sum(ws_views(found@)) <= usize::MAX,
        ensures
            ws_sorted(merged(ws_views(found@)), ws_views(final(self).workspaces@)),
            final(self).model() == old(self).model(),
            final(self).scroll_offset == old(self).scroll_offset,
    {
        self.workspaces = merge_workspaces(&found);
    }

    /// Lists the workspaces matching the search, keeping the selection within the list.
    pub fn apply_filter(&mut self)
        ensures
            final(self).model() == ws_refiltered(ws_views(old(self).workspaces@), old(self).model()),
            final(self).workspaces == old(self).workspaces,
            final(self).scroll_offset == old(self).scroll_offset,
    {
        let ghost es = ws_views(self.workspaces@);
        let empty = self.search.unicode_len() == 0;
        let q = to_lowercase(self.search.as_str());
        let mut f: Vec<WorkspaceEntry> = Vec::new();
        let mut i: usize = 0;
        while i < self.workspaces.len()
            invariant
                i <= self.workspaces@.len(),
                es == ws_views(self.workspaces@),
                empty == (self.search@.len() == 0),
                q@ == lowercase_of(self.search@),
                ws_views(f@) == ws_filtered(es.take(i as int), self.search@),
            decreases self.workspaces@.len() - i,
        {
            assert(es.take(i + 1).drop_last() =~= es.take(i as int));
            assert(es.take(i + 1).last() == ws_view(self.workspaces@[i as int]));
            let e = &self.workspaces[i];
            let keep = empty || fuzzy_match(q.as_str(), e.path.as_str());
            let ghost before = f@;
            if keep {
                f.push(copy_ws(e));
                assert(ws_views(f@) =~= ws_views(before).push(ws_view(*e)));
            }
            proof {
                if empty {
                    assert(ws_views(f@) =~= es.take(i + 1));
                }
            }
            i = i + 1;
        }
        assert(es.take(self.workspaces@.len() as int) =~= es);
        self.filtered = f;
        let last = if self.filtered.len() > 0 {
            self.filtered.len() - 1
        } else {
            0
        };
        if self.selected > last {
            self.selected = last;
        }
    }

    /// Handles a key (see `ws_key_m`).
    pub fn handle_key(&mut self, key: KeyEvent) -> (a: WorkspaceAction)
        ensures
            (final(self).model(), ws_outcome(a)) == ws_key_m(ws_views(old(self).workspaces@), old(self).model(), key),
            final(self).workspaces == old(self).workspaces,
            final(self).scroll_offset == old(self).scroll_offset,
    {
        let len = self.filtered.len();
        let last = if len > 0 {
            len - 1
        } else {
            0
        };
        let cancel = key.code == KeyCode::Esc || is_ctrl_char(&key, 'c');
        match self.mode {
            WorkspaceDialogMode::EnterCreatePath => {
                if cancel {
                    self.mode = WorkspaceDialogMode::Listing;
                    self.create_input = String::new();
                    return WorkspaceAction::Nothing;
                }
                match key.code {
                    KeyCode::Enter => {
                        let path = copy_string(&self.create_input);
                        self.create_input = String::new();
                        self.mode = WorkspaceDialogMode::Listing;
                        if path.unicode_len() == 0 {
                            WorkspaceAction::Nothing
                        } else {
                            WorkspaceAction::Create(path)
                        }
                    },
                    KeyCode::Char(c) => {
                        push_char(&mut self.create_input, c);
                        WorkspaceAction::Nothing
                    },
                    KeyCode::Backspace => {
                        let _ = pop_char(&mut self.create_input);
                        WorkspaceAction::Nothing
                    },
                    _ => WorkspaceAction::Nothing,
                }
            },
            WorkspaceDialogMode::ConfirmDelete(idx) => {
                if cancel || key.code == KeyCode::Char('n') {
                    self.mode = WorkspaceDialogMode::Listing;
                    return WorkspaceAction::Nothing;
                }
                if key.code == KeyCode::Char('y') || key.code == KeyCode::Enter {
                    self.mode = WorkspaceDialogMode::Listing;
                    if idx < len {
                        return WorkspaceAction::Delete(copy_string(&self.filtered[idx].path));
                    }
                    return WorkspaceAction::Nothing;
                }
                WorkspaceAction::Nothing
            },
            WorkspaceDialogMode::Listing => {
                if cancel {
                    self.close();
                    return WorkspaceAction::Close;
                }
                match key.code {
                    KeyCode::Enter => {
                        if self.selected < len {
                            let path = copy_string(&self.filtered[self.selected].path);
                            self.close();
                            WorkspaceAction::Switch(path)
                        } else {
                            WorkspaceAction::Nothing
                        }
                    },
                    KeyCode::Up => {
                        if self.selected > 0 {
                            self.selected = self.selected - 1;
                        }
                        WorkspaceAction::Nothing
                    },
                    KeyCode::Down => {
                        if self.selected < last {
                            self.selected = self.selected + 1;
                        }
                        WorkspaceAction::Nothing
                    },
                    KeyCode::PageUp => {
                        self.selected = if self.selected >= 10 {
                            self.selected - 10
                        } else {
                            0
                        };
                        WorkspaceAction::Nothing
                    },
                    KeyCode::PageDown => {
                        self.selected = if self.selected <= last && last - self.selected >= 10 {
                            self.selected + 10
                        } else {
                            last
                        };
                        WorkspaceAction::Nothing
                    },
                    KeyCode::Home => {
                        self.selected = 0;
                        WorkspaceAction::Nothing
                    },
                    KeyCode::End => {
                        self.selected = last;
                        WorkspaceAction::Nothing
                    },
                    KeyCode::Delete => {
                        if len > 0 {
                            self.mode = WorkspaceDialogMode::ConfirmDelete(self.selected);
                        }
                        WorkspaceAction::Nothing
                    },
                    KeyCode::Backspace => {
                        if self.search.unicode_len() > 0 {
                            let _ = pop_char(&mut self.search);
                            self.selected = 0;
                            self.apply_filter();
                        }
                        WorkspaceAction::Nothing
                    },
                    KeyCode::Char(c) => {
                        if c == '/' {
                            self.search = String::new();
                            WorkspaceAction::StartSearch
                        } else if c == 'n' {
                            self.mode = WorkspaceDialogMode::EnterCreatePath;
                            self.create_input = String::new();
                            WorkspaceAction::Nothing
                        } else {
                            push_char(&mut self.search, c);
                            self.selected = 0;
                            self.apply_filter();
                            WorkspaceAction::Nothing
                        }
                    },
                    _ => WorkspaceAction::Nothing,
                }
            },
        }
    }
}

impl Default for WorkspaceDialogState {
    fn default() -> (s: Self)
        ensures
            !s.open && s.workspaces@.len() == 0 && s.filtered@.len() == 0,
            s.mode == WorkspaceDialogMode::Listing,
    {
        Self::new()
    }
}


/// The number of leading characters of `s` that start before byte `limit`.
pub open spec fn chars_starting_before(s: Seq<char>, limit: int) -> nat
    decreases s.len(),
{
    if s.len() == 0 || limit <= 0 {
        0
    } else {
        1 + chars_starting_before(s.subrange(1, s.len() as int), limit - utf8_len(s[0]))
    }
}

/// A path as shown in `max_len` bytes: the path when it fits, `...` when fewer than four
/// bytes are allowed, else `...` followed by the path from the first character boundary at
/// or after byte `max_len - 3`.
pub open spec fn path_shown(s: Seq<char>, max_len: nat) -> Seq<char> {
    if byte_len(s) <= max_len {
        s
    } else if max_len <= 3 {
        "..."@
    } else {
        "..."@ + s.skip(chars_starting_before(s, max_len - 3) as int)
    }
}

/// A path as shown in `max_len` bytes (see `path_shown`).
pub fn truncate_path(path: &str, max_len: usize) -> (r: String)
    ensures
        r@ == path_shown(path@, max_len as nat),
{
    if str_byte_len(path) <= max_len {
        return String::from_str(path);
    }
    if max_len <= 3 {
        return String::from_str("...");
    }
    let limit = max_len - 3;
    let v = chars_of(path);
    let mut i: usize = 0;
    let mut b: u128 = 0;
    assert(v@.skip(0) =~= v@);
    while i < v.len() && b < limit as u128
        invariant
            i <= v@.len(),
            v@ == path@,
            b <= 4 * i,
            chars_starting_before(v@, limit as int) == i + chars_starting_before(v@.skip(i as int), limit - b),
        decreases v@.len() - i,
    {
        assert(v@.skip(i as int).subrange(1, v@.skip(i as int).len() as int) =~= v@.skip(i + 1));
        b = b + char_len_utf8(v[i]) as u128;
        i = i + 1;
    }
    proof {
        if i < v@.len() {
            assert(chars_starting_before(v@.skip(i as int), limit - b) == 0);
        } else {
            assert(v@.skip(i as int).len() == 0);
        }
    }
    let mut r = String::from_str("...");
    let tail = string_of_range(&v, i, v.len());
    r.append(tail.as_str());
    assert(v@.subrange(i as int, v@.len() as int) =~= path@.skip(i as int));
    r
}

/// The latest of the modification times (milliseconds) of a workspace's sessions, 0 when
/// there are none.
pub open spec fn latest(times: Seq<u128>) -> u128
    decreases times.len(),
{
    if times.len() == 0 {
        0
    } else {
        let m = latest(times.drop_last());
        if times.last() > m { times.last() } else { m }
    }
}

/// The latest of the given times (see `latest`).
pub fn latest_millis(times: &Vec<u128>) -> (r: u128)
    ensures
        r == latest(times@),
{
    let mut r: u128 = 0;
    let mut i: usize = 0;
    while i < times.len()
        invariant
            i <= times@.len(),
            r == latest(times@.take(i as int)),
        decreases times@.len() - i,
    {
        assert(times@.take(i + 1).drop_last() =~= times@.take(i as int));
        if times[i] > r {
            r = times[i];
        }
        i = i + 1;
    }
    assert(times@.take(times@.len() as int) =~= times@);
    r
}

/// `paths` with runs of the same path kept once (`Vec::dedup`).
pub open spec fn deduped(paths: Seq<Seq<char>>) -> Seq<Seq<char>>
    decreases paths.len(),
{
    if paths.len() == 0 {
        Seq::empty()
    } else {
        let r = deduped(paths.drop_last());
        if paths.len() >= 2 && paths[paths.len() - 2] == paths.last() {
            r
        } else {
            r.push(paths.last())
        }
    }
}

/// The places to look for workspaces, with runs of the same place kept once.
pub fn dedup_locations(paths: &Vec<String>) -> (r: Vec<String>)
    ensures
        crate::text::views(r@) == deduped(crate::text::views(paths@)),
{
    let ghost ps = crate::text::views(paths@);
    let mut r: Vec<String> = Vec::new();
    let mut i: usize = 0;
    while i < paths.len()
        invariant
            i <= paths@.len(),
            ps == crate::text::views(paths@),
            crate::text::views(r@) == deduped(ps.take(i as int)),
        decreases paths@.len() - i,
    {
        let ghost t = ps.take(i + 1);
        assert(t.drop_last() =~= ps.take(i as int));
        assert(t.last() == paths@[i as int]@);
        let repeat = i >= 1 && str_eq(paths[i - 1].as_str(), paths[i].as_str());
        proof {
            if i >= 1 {
                assert(t[t.len() - 2] == paths@[i - 1]@);
            }
        }
        if !repeat {
            let ghost before = r@;
            r.push(copy_string(&paths[i]));
            assert(crate::text::views(r@) =~= crate::text::views(before).push(paths@[i as int]@));
        }
        i = i + 1;
    }
    assert(ps.take(paths@.len() as int) =~= ps);
    r
}

// ---------------------------------------------------------------------------
// What the dialog shows
// ---------------------------------------------------------------------------

/// Row `r` shows listed workspace `i` at time `now`: a marker on the selected row and the
/// path cut to 42 bytes from the front, its session count, and how long ago it was active
/// (`never` when it never was).
pub open spec fn ws_row(s: WorkspaceDialogState, i: int, now: u128, r: RowModel) -> bool {
    let w = s.filtered@[i];
    &&& r.index == i && r.heading is None && r.selected == (i == s.selected) && !r.warning
    &&& r.label == (if i == s.selected { "\u{25b6} "@ } else { "  "@ }) + path_shown(w.path@, 42)
    &&& r.detail == " ("@ + decimal(w.session_count as nat) + " sess) "@
    &&& r.trailing == (if w.last_active > 0 { relative_time(w.last_active, now) } else { "never"@ })
}

/// `v` is what the dialog shows with room for `rows` rows at time `now`: its title, the
/// search line, the hint and the footer (the number listed); with nothing listed, a note (one
/// for no workspaces, one for no matches); otherwise the rows in view from the position that
/// keeps the selection in view.
pub open spec fn workspace_view(s: WorkspaceDialogState, rows: usize, now: u128, v: ViewModel) -> bool {
    let len = s.filtered@.len();
    &&& v.title == " Workspaces "@
    &&& (v.input, v.input_tone) == (if s.search@.len() == 0 { ("Type to search..."@, ViewTone::Muted) } else {
        ("> "@ + s.search@, ViewTone::Normal)
    })
    &&& v.hint == "Enter: open  \u{2022}  N: new  \u{2022}  Del: delete  \u{2022}  /: search  \u{2022}  \u{2191}\u{2193}: navigate  \u{2022}  Esc: close"@
    &&& v.footer == " "@ + decimal(len as nat) + " workspace(s) "@
    &&& if len == 0 {
        &&& v.empty == Some(if s.search@.len() == 0 { "No workspaces found. Press N to create one."@ } else {
            "No matches. Press N to create new."@
        })
        &&& v.rows.len() == 0
        &&& v.scroll_offset == s.scroll_offset
    } else {
        &&& v.empty is None
        &&& v.scroll_offset == view_scroll(s.selected, s.scroll_offset, rows)
        &&& v.rows.len() == shown_count(v.scroll_offset, rows, len)
        &&& forall|k: int| 0 <= k < v.rows.len() ==> ws_row(s, v.scroll_offset + k, now, #[trigger] v.rows[k])
    }
}

fn ws_row_of(s: &WorkspaceDialogState, i: usize, now: u128) -> (r: ViewRow)
    requires
        i < s.filtered@.len(),
    ensures
        ws_row(*s, i as int, now, row_model(r)),
{
    let w = &s.filtered[i];
    let selected = i == s.selected;
    let label = concat(if selected { "\u{25b6} " } else { "  " }, truncate_path(w.path.as_str(), 42).as_str());
    let mut detail = String::from_str(" (");
    push_decimal(&mut detail, w.session_count as u128);
    detail.append(" sess) ");
    let trailing = if w.last_active > 0 { format_relative_time_at(w.last_active, now) } else { String::from_str("never") };
    ViewRow { index: i, heading: None, label, detail, trailing, selected, warning: false }
}

/// What the workspace dialog shows with room for `rows` rows at time `now` (see `workspace_view`).
pub fn workspace_dialog_view(s: &WorkspaceDialogState, rows: usize, now: u128) -> (v: DialogView)
    ensures
        workspace_view(*s, rows, now, v.model()),
{
    let input = if s.search.unicode_len() == 0 {
        (String::from_str("Type to search..."), ViewTone::Muted)
    } else {
        (concat("> ", s.search.as_str()), ViewTone::Normal)
    };
    let len = s.filtered.len();
    let mut footer = String::from_str(" ");
    push_decimal(&mut footer, len as u128);
    footer.append(" workspace(s) ");
    let mut v = view_frame(
        " Workspaces ",
        input.0,
        input.1,
        "Enter: open  \u{2022}  N: new  \u{2022}  Del: delete  \u{2022}  /: search  \u{2022}  \u{2191}\u{2193}: navigate  \u{2022}  Esc: close",
        footer,
    );
    if len == 0 {
        v.empty = Some(if s.search.unicode_len() == 0 {
            String::from_str("No workspaces found. Press N to create one.")
        } else {
            String::from_str("No matches. Press N to create new.")
        });
        v.scroll_offset = s.scroll_offset;
        return v;
    }
    let off = view_scroll_offset(s.selected, s.scroll_offset, rows);
    v.scroll_offset = off;
    let mut i = off;
    while i < len && i - off < rows
        invariant
            len == s.filtered@.len(),
            off <= i,
            i - off <= rows,
            off >= len ==> i == off,
            off < len ==> i <= len,
            v.model().rows.len() == i - off,
            v.scroll_offset == off,
            off == view_scroll(s.selected, s.scroll_offset, rows),
            v.model().title == " Workspaces "@,
            (v.model().input, v.model().input_tone) == (if s.search@.len() == 0 { ("Type to search..."@, ViewTone::Muted) } else {
                ("> "@ + s.search@, ViewTone::Normal)
            }),
            v.model().hint == "Enter: open  \u{2022}  N: new  \u{2022}  Del: delete  \u{2022}  /: search  \u{2022}  \u{2191}\u{2193}: navigate  \u{2022}  Esc: close"@,
            v.model().footer == " "@ + decimal(len as nat) + " workspace(s) "@,
            v.model().empty is None,
            forall|k: int| 0 <= k < v.model().rows.len() ==> ws_row(*s, off + k, now, #[trigger] v.model().rows[k]),
        decreases len - i,
    {
        let row = ws_row_of(s, i, now);
        let ghost before = v.model().rows;
        v.rows.push(row);
        assert(v.model().rows =~= before.push(row_model(row)));
        i = i + 1;
    }
    proof {
        if off >= len {
            assert(i == off);
        } else if i == len {
            assert(len - off <= rows);
        } else {
            assert(i - off == rows);
        }
    }
    v
}

} // verus!
