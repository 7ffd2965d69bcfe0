//! The branches dialog: the sessions of the working directory, newest first, with the
//! current one marked; switch to one, start a new branch, or delete one (not the current)
//! after a second confirming key. Reading the sessions from disk and deleting files are
//! left to the caller; the keys are interpreted over a plain model (`BranchModel`).
use vstd::prelude::*;
use crate::keys::{is_ctrl_char, KeyCode, KeyEvent};
use crate::session_files::{newest_first, order_newest_first};
use crate::sorting::is_stable_sort;
use crate::text::{copy_string, str_eq};

verus! {

/// One session of the working directory.
#[derive(Debug, Clone)]
pub struct BranchEntry {
    pub id: String,
    pub path: std::path::PathBuf,
    pub parent_id: Option<String>,
    pub branch_name: Option<String>,
    pub message_count: usize,
    pub modified: u128,
    pub is_current: bool,
    pub sub_agent_count: usize,
}

/// The characters of an optional string.
pub open spec fn opt_view(o: Option<String>) -> Option<Seq<char>> {
    match o {
        Some(s) => Some(s@),
        None => None,
    }
}

/// A branch as plain values.
pub struct BranchView {
    pub id: Seq<char>,
    pub path: std::path::PathBuf,
    pub parent_id: Option<Seq<char>>,
    pub branch_name: Option<Seq<char>>,
    pub message_count: usize,
    pub modified: u128,
    pub is_current: bool,
    pub sub_agent_count: usize,
}

/// The plain values of a branch.
pub open spec fn branch_view(e: BranchEntry) -> BranchView {
    BranchView {
        id: e.id@,
        path: e.path,
        parent_id: opt_view(e.parent_id),
        branch_name: opt_view(e.branch_name),
        message_count: e.message_count,
        modified: e.modified,
        is_current: e.is_current,
        sub_agent_count: e.sub_agent_count,
    }
}

/// The plain values of a list of branches.
pub open spec fn branch_views(es: Seq<BranchEntry>) -> Seq<BranchView> {
    es.map_values(|e: BranchEntry| branch_view(e))
}

/// What a key asks of the caller.
#[derive(Debug)]
pub enum BranchingAction {
    Nothing,
    Close,
    Switch(std::path::PathBuf),
    NewBranch,
    /// Delete the session file at this path, read the branches again, and close.
    Delete(std::path::PathBuf),
}

/// The dialog as plain values.
pub struct BranchModel {
    pub open: bool,
    pub branches: Seq<BranchView>,
    pub selected: usize,
    pub confirm: Option<Seq<char>>,
}

/// An action as plain values.
pub enum BranchOutcome {
    Nothing,
    Close,
    Switch(std::path::PathBuf),
    NewBranch,
    Delete(std::path::PathBuf),
}

/// The plain values of an action.
pub open spec fn branch_outcome(a: BranchingAction) -> BranchOutcome {
    match a {
        BranchingAction::Nothing => BranchOutcome::Nothing,
        BranchingAction::Close => BranchOutcome::Close,
        BranchingAction::Switch(p) => BranchOutcome::Switch(p),
        BranchingAction::NewBranch => BranchOutcome::NewBranch,
        BranchingAction::Delete(p) => BranchOutcome::Delete(p),
    }
}

/// The last row, or 0.
pub open spec fn last_of(len: nat) -> usize {
    if len > 0 { (len - 1) as usize } else { 0 }
}

/// The selected branch is the one waiting for a confirming key.
pub open spec fn confirming(m: BranchModel) -> bool {
    m.selected < m.branches.len() && m.confirm == Some(m.branches[m.selected as int].id)
}

/// A key: Esc, `q` or Ctrl+C closes; Enter switches to the selected branch, or deletes it
/// when confirming; the movement keys move and forget a pending deletion; Delete or Ctrl+D
/// asks to confirm deleting the selected branch unless it is the current one, or confirms;
/// `n` starts a new branch.
pub open spec fn branch_key_m(m: BranchModel, key: KeyEvent) -> (BranchModel, BranchOutcome) {
    let len = m.branches.len();
    let sel = m.selected;
    if key.code == KeyCode::Esc || key.code == KeyCode::Char('q') || key.is_ctrl_char('c') {
        (BranchModel { open: false, ..m }, BranchOutcome::Close)
    } else if key.code == KeyCode::Enter {
        if sel < len {
            if confirming(m) {
                (BranchModel { confirm: None, ..m }, BranchOutcome::Delete(m.branches[sel as int].path))
            } else {
                (BranchModel { open: false, ..m }, BranchOutcome::Switch(m.branches[sel as int].path))
            }
        } else {
            (m, BranchOutcome::Nothing)
        }
    } else if key.code == KeyCode::Up {
        (BranchModel { confirm: None, selected: if sel > 0 { (sel - 1) as usize } else { 0 }, ..m }, BranchOutcome::Nothing)
    } else if key.code == KeyCode::Down {
        (BranchModel { confirm: None, selected: if sel < last_of(len) { (sel + 1) as usize } else { sel }, ..m }, BranchOutcome::Nothing)
    } else if key.code == KeyCode::PageUp {
        (BranchModel { confirm: None, selected: if sel >= 10 { (sel - 10) as usize } else { 0 }, ..m }, BranchOutcome::Nothing)
    } else if key.code == KeyCode::PageDown {
        (BranchModel { confirm: None, selected: if sel + 10 <= last_of(len) { (sel + 10) as usize } else { last_of(len) }, ..m }, BranchOutcome::Nothing)
    } else if key.code == KeyCode::Delete || key.is_ctrl_char('d') {
        if sel < len {
            if m.branches[sel as int].is_current {
                (m, BranchOutcome::Nothing)
            } else if confirming(m) {
                (BranchModel { confirm: None, ..m }, BranchOutcome::Delete(m.branches[sel as int].path))
            } else {
                (BranchModel { confirm: Some(m.branches[sel as int].id), ..m }, BranchOutcome::Nothing)
            }
        } else {
            (m, BranchOutcome::Nothing)
        }
    } else if key.code == KeyCode::Char('n') {
        (BranchModel { confirm: None, ..m }, BranchOutcome::NewBranch)
    } else {
        (m, BranchOutcome::Nothing)
    }
}

/// The order keys (modification time, id) of branches.
pub open spec fn branch_keys(es: Seq<BranchView>) -> Seq<(u128, Seq<char>)> {
    Seq::new(es.len(), |i: int| (es[i].modified, es[i].id))
}

/// `r` is `es`, each marked current exactly when its id is `current`, newest first (see
/// `newest_first`).
pub open spec fn branches_listed(es: Seq<BranchView>, current: Seq<char>, r: Seq<BranchView>) -> bool {
    exists|perm: Seq<usize>|
        #[trigger] is_stable_sort(newest_first(branch_keys(es)), es.len() as int, perm) && r.len() == perm.len()
            && forall|k: int|
            0 <= k < perm.len() ==> #[trigger] r[k] == (BranchView { is_current: es[perm[k] as int].id == current, ..es[perm[k] as int] })
}

/// The state of the branches dialog.
#[derive(Debug, Clone)]
pub struct SessionBranchingState {
    pub open: bool,
    pub branches: Vec<BranchEntry>,
    pub selected: usize,
    pub scroll_offset: usize,
    pub delete_confirm: Option<String>,
    pub current_session_id: String,
}

fn copy_opt(o: &Option<String>) -> (r: Option<String>)
    ensures
        opt_view(r) == opt_view(*o),
{
    match o {
        Some(s) => Some(copy_string(s)),
        None => None,
    }
}

impl SessionBranchingState {
    /// The dialog as plain values.
    pub open spec fn model(&self) -> BranchModel {
        BranchModel {
            open: self.open,
            branches: branch_views(self.branches@),
            selected: self.selected,
            confirm: opt_view(self.delete_confirm),
        }
    }

    /// A closed dialog with no branches.
    pub fn new() -> (s: Self)
        ensures
            !s.open && s.branches@.len() == 0,
            s.selected == 0 && s.scroll_offset == 0,
            s.delete_confirm is None && s.current_session_id@.len() == 0,
    {
        SessionBranchingState {
            open: false,
            branches: Vec::new(),
            selected: 0,
            scroll_offset: 0,
            delete_confirm: None,
            current_session_id: String::new(),
        }
    }

    /// Opens the dialog for session `current_session_id` over the sessions read from disk.
    pub fn open(&mut self, current_session_id: &str, loaded: Vec<BranchEntry>)
        ensures
            final(self).open && final(self).scroll_offset == 0 && final(self).delete_confirm is None,
            final(self).current_session_id@ == current_session_id@,
            final(self).selected == 0,
            branches_listed(branch_views(loaded@), current_session_id@, branch_views(final(self).branches@)),
    {
        self.open = true;
        self.current_session_id = String::from_str(current_session_id);
        self.selected = 0;
        self.scroll_offset = 0;
        self.delete_confirm = None;
        self.load_branches(loaded);
    }

    /// Closes the dialog.
    pub fn close(&mut self)
        ensures
            final(self).model() == (BranchModel { open: false, ..old(self).model() }),
            final(self).current_session_id == old(self).current_session_id,
            final(self).scroll_offset == old(self).scroll_offset,
    {
        self.open = false;
    }

    /// Puts the sessions read from disk in place: each marked current when it is the current
    /// session, newest first; the selection is kept within them.
    pub fn load_branches(&mut self, loaded: Vec<BranchEntry>)
        ensures
            branches_listed(branch_views(loaded@), old(self).current_session_id@, branch_views(final(self).branches@)),
            final(self).selected == if old(self).selected <= last_of(final(self).branches@.len()) {
                old(self).selected
            } else {
                last_of(final(self).branches@.len())
            },
            final(self).open == old(self).open && final(self).current_session_id == old(self).current_session_id,
            final(self).delete_confirm == old(self).delete_confirm,
            final(self).scroll_offset == old(self).scroll_offset,
    {
        let ghost lv = branch_views(loaded@);
        let mut modified: Vec<u128> = Vec::new();
        let mut ids: Vec<String> = Vec::new();
        let mut i: usize = 0;
        while i < loaded.len()
            invariant
                i <= loaded@.len(),
                modified@.len() == i && ids@.len() == i,
                forall|k: int| 0 <= k < i ==> #[trigger] modified@[k] == loaded@[k].modified && ids@[k]@ == loaded@[k].id@,
            decreases loaded@.len() - i,
        {
            modified.push(loaded[i].modified);
            ids.push(copy_string(&loaded[i].id));
            i = i + 1;
        }
        let perm = order_newest_first(&modified, &ids);
        assert(Seq::new(ids@.len(), |i: int| (modified@[i], ids@[i]@)) =~= branch_keys(lv));
        let n = loaded.len();
        let mut sorted: Vec<BranchEntry> = Vec::new();
        let mut k: usize = 0;
        while k < n
            invariant
                n == loaded@.len(),
                lv == branch_views(loaded@),
                perm@.len() == n,
                forall|j: int| 0 <= j < perm@.len() ==> #[trigger] perm@[j] < n,
                k <= n,
                sorted@.len() == k,
                forall|j: int|
                    0 <= j < k ==> branch_view(#[trigger] sorted@[j]) == (BranchView {
                        is_current: lv[perm@[j] as int].id == self.current_session_id@,
                        ..lv[perm@[j] as int]
                    }),
            decreases n - k,
        {
            let e = &loaded[perm[k]];
            let is_current = str_eq(e.id.as_str(), self.current_session_id.as_str());
            sorted.push(
                BranchEntry {
                    id: copy_string(&e.id),
                    path: e.path.clone(),
                    parent_id: copy_opt(&e.parent_id),
                    branch_name: copy_opt(&e.branch_name),
                    message_count: e.message_count,
                    modified: e.modified,
                    is_current,
                    sub_agent_count: e.sub_agent_count,
                },
            );
            k = k + 1;
        }
        proof {
            assert forall|j: int| 0 <= j < perm@.len() implies #[trigger] branch_views(sorted@)[j] == (BranchView {
                is_current: lv[perm@[j] as int].id == self.current_session_id@,
                ..lv[perm@[j] as int]
            }) by {}
            assert(branch_views(sorted@).len() == perm@.len());
        }
        self.branches = sorted;
        let last = if self.branches.len() > 0 {
            self.branches.len() - 1
        } else {
            0
        };
        if self.selected > last {
            self.selected = last;
        }
    }

    fn is_confirming(&self) -> (b: bool)
        ensures
            b == confirming(self.model()),
    {
        if self.selected < self.branches.len() {
            match &self.delete_confirm {
                Some(id) => str_eq(id.as_str(), self.branches[self.selected].id.as_str()),
                None => false,
            }
        } else {
            false
        }
    }

    /// Handles a key (see `branch_key_m`).
    pub fn handle_key(&mut self, key: KeyEvent) -> (a: BranchingAction)
        ensures
            (final(self).model(), branch_outcome(a)) == branch_key_m(old(self).model(), key),
            final(self).current_session_id == old(self).current_session_id,
            final(self).scroll_offset == old(self).scroll_offset,
    {
        let len = self.branches.len();
        let last = if len > 0 {
            len - 1
        } else {
            0
        };
        if key.code == KeyCode::Esc || key.code == KeyCode::Char('q') || is_ctrl_char(&key, 'c') {
            self.close();
            return BranchingAction::Close;
        }
        if key.code == KeyCode::Enter {
            if self.selected < len {
                if self.is_confirming() {
                    let path = self.branches[self.selected].path.clone();
                    self.delete_confirm = None;
                    return BranchingAction::Delete(path);
                }
                let path = self.branches[self.selected].path.clone();
                self.close();
                return BranchingAction::Switch(path);
            }
            return BranchingAction::Nothing;
        }
        if key.code == KeyCode::Up {
            self.delete_confirm = None;
            if self.selected > 0 {
                self.selected = self.selected - 1;
            }
            return BranchingAction::Nothing;
        }
        if key.code == KeyCode::Down {
            self.delete_confirm = None;
            if self.selected < last {
                self.selected = self.selected + 1;
            }
            return BranchingAction::Nothing;
        }
        if key.code == KeyCode::PageUp {
            self.delete_confirm = None;
            self.selected = if self.selected >= 10 {
                self.selected - 10
            } else {
                0
            };
            return BranchingAction::Nothing;
        }
        if key.code == KeyCode::PageDown {
            self.delete_confirm = None;
            self.selected = if self.selected <= last && last - self.selected >= 10 {
                self.selected + 10
            } else {
                last
            };
            return BranchingAction::Nothing;
        }
        if key.code == KeyCode::Delete || is_ctrl_char(&key, 'd') {
            if self.selected < len {
                if self.branches[self.selected].is_current {
                    return BranchingAction::Nothing;
                }
                if self.is_confirming() {
                    let path = self.branches[self.selected].path.clone();
                    self.delete_confirm = None;
                    return BranchingAction::Delete(path);
                }
                self.delete_confirm = Some(copy_string(&self.branches[self.selected].id));
            }
            return BranchingAction::Nothing;
        }
        if key.code == KeyCode::Char('n') {
            self.delete_confirm = None;
            return BranchingAction::NewBranch;
        }
        BranchingAction::Nothing
    }
}

} // verus!
