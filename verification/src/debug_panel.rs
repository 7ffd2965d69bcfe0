//! The debug panel: shown or hidden, on one of four tabs.
use vstd::prelude::*;
use crate::keys::{is_ctrl_char, KeyCode, KeyEvent};

verus! {

/// The tabs of the panel, in order.
#[derive(Debug, Clone, Copy, PartialEq, Eq, Structural)]
pub enum DebugTab {
    AppState,
    EventLog,
    Memory,
    Performance,
}

/// The position of a tab.
pub open spec fn tab_index(t: DebugTab) -> int {
    match t {
        DebugTab::AppState => 0,
        DebugTab::EventLog => 1,
        DebugTab::Memory => 2,
        DebugTab::Performance => 3,
    }
}

/// The tab at position `i` (taken modulo four).
pub open spec fn tab_at(i: int) -> DebugTab {
    let k = i % 4;
    if k == 0 {
        DebugTab::AppState
    } else if k == 1 {
        DebugTab::EventLog
    } else if k == 2 {
        DebugTab::Memory
    } else {
        DebugTab::Performance
    }
}

/// The tab after `t`, wrapping to the first.
pub open spec fn next_of(t: DebugTab) -> DebugTab {
    tab_at(tab_index(t) + 1)
}

/// The tab before `t`, wrapping to the last.
pub open spec fn prev_of(t: DebugTab) -> DebugTab {
    tab_at(tab_index(t) + 3)
}

/// Going to the next tab and back, or back and then forward, returns to the same tab.
pub proof fn lemma_next_prev_inverse(t: DebugTab)
    ensures
        prev_of(next_of(t)) == t,
        next_of(prev_of(t)) == t,
{
}

impl DebugTab {
    /// The label shown on the tab.
    pub fn label(&self) -> (r: &'static str)
        ensures
            r@ == match *self {
                DebugTab::AppState => "State"@,
                DebugTab::EventLog => "Events"@,
                DebugTab::Memory => "Memory"@,
                DebugTab::Performance => "Perf"@,
            },
    {
        match self {
            DebugTab::AppState => "State",
            DebugTab::EventLog => "Events",
            DebugTab::Memory => "Memory",
            DebugTab::Performance => "Perf",
        }
    }

    /// The tabs, in order.
    pub fn all() -> (r: [DebugTab; 4])
        ensures
            forall|i: int| 0 <= i < 4 ==> #[trigger] r@[i] == tab_at(i),
    {
        [DebugTab::AppState, DebugTab::EventLog, DebugTab::Memory, DebugTab::Performance]
    }
}

/// What a key asks of the caller.
#[derive(Debug)]
pub enum DebugAction {
    Nothing,
    Close,
    NextTab,
    PrevTab,
}

/// The state of the panel.
#[derive(Debug, Clone)]
pub struct DebugPanelState {
    pub open: bool,
    pub tab: DebugTab,
}

impl DebugPanelState {
    /// A hidden panel on the first tab.
    pub fn new() -> (s: Self)
        ensures
            !s.open && s.tab == DebugTab::AppState,
    {
        DebugPanelState { open: false, tab: DebugTab::AppState }
    }

    /// Shows the panel.
    pub fn open(&mut self)
        ensures
            final(self).open && final(self).tab == old(self).tab,
    {
        self.open = true;
    }

    /// Hides the panel.
    pub fn close(&mut self)
        ensures
            !final(self).open && final(self).tab == old(self).tab,
    {
        self.open = false;
    }

    /// Shows a hidden panel or hides a shown one.
    pub fn toggle(&mut self)
        ensures
            final(self).open == !old(self).open && final(self).tab == old(self).tab,
    {
        if self.open {
            self.close();
        } else {
            self.open();
        }
    }

    fn index_of_tab(&self) -> (i: usize)
        ensures
            i == tab_index(self.tab),
    {
        let tabs = DebugTab::all();
        let mut i: usize = 0;
        while i < 4 && tabs[i] != self.tab
            invariant
                i <= 4,
                forall|k: int| 0 <= k < 4 ==> #[trigger] tabs@[k] == tab_at(k),
                forall|k: int| 0 <= k < i ==> tab_at(k) != self.tab,
            decreases 4 - i,
        {
            i = i + 1;
        }
        if i == 4 {
            proof {
                assert(tab_at(tab_index(self.tab)) == self.tab);
            }
            0
        } else {
            i
        }
    }

    /// Moves to the next tab, wrapping to the first.
    pub fn next_tab(&mut self)
        ensures
            final(self).tab == next_of(old(self).tab) && final(self).open == old(self).open,
    {
        let tabs = DebugTab::all();
        let idx = self.index_of_tab();
        self.tab = tabs[(idx + 1) % 4];
    }

    /// Moves to the previous tab, wrapping to the last.
    pub fn prev_tab(&mut self)
        ensures
            final(self).tab == prev_of(old(self).tab) && final(self).open == old(self).open,
    {
        let tabs = DebugTab::all();
        let idx = self.index_of_tab();
        self.tab = tabs[(idx + 4 - 1) % 4];
    }

    /// Handles a key: Esc, Ctrl+C or `q` hides the panel; Shift+Tab or Ctrl+Left goes to the
    /// previous tab; Tab or Ctrl+Right to the next; `1` to `4` pick a tab.
    pub fn handle_key(&mut self, key: KeyEvent) -> (a: DebugAction)
        ensures
            key.code == KeyCode::Esc || key.is_ctrl_char('c') || key.code == KeyCode::Char('q') ==> !final(self).open
                && final(self).tab == old(self).tab && a is Close,
            !(key.code == KeyCode::Esc || key.is_ctrl_char('c') || key.code == KeyCode::Char('q')) ==> final(self).open
                == old(self).open && ({
                let prev = (key.modifiers.bits == 1 && key.code == KeyCode::Tab) || (key.modifiers.bits == 2
                    && key.code == KeyCode::Left);
                let next = key.code == KeyCode::Tab || (key.modifiers.bits == 2 && key.code == KeyCode::Right);
                if prev {
                    a is PrevTab && final(self).tab == prev_of(old(self).tab)
                } else if next {
                    a is NextTab && final(self).tab == next_of(old(self).tab)
                } else {
                    a is Nothing && final(self).tab == match key.code {
                        KeyCode::Char('1') => DebugTab::AppState,
                        KeyCode::Char('2') => DebugTab::EventLog,
                        KeyCode::Char('3') => DebugTab::Memory,
                        KeyCode::Char('4') => DebugTab::Performance,
                        _ => old(self).tab,
                    }
                }
            }),
    {
        if key.code == KeyCode::Esc || is_ctrl_char(&key, 'c') || key.code == KeyCode::Char('q') {
            self.close();
            return DebugAction::Close;
        }
        if (key.modifiers.bits == 1 && key.code == KeyCode::Tab) || (key.modifiers.bits == 2 && key.code
            == KeyCode::Left) {
            self.prev_tab();
            return DebugAction::PrevTab;
        }
        if key.code == KeyCode::Tab || (key.modifiers.bits == 2 && key.code == KeyCode::Right) {
            self.next_tab();
            return DebugAction::NextTab;
        }
        match key.code {
            KeyCode::Char('1') => {
                self.tab = DebugTab::AppState;
            },
            KeyCode::Char('2') => {
                self.tab = DebugTab::EventLog;
            },
            KeyCode::Char('3') => {
                self.tab = DebugTab::Memory;
            },
            KeyCode::Char('4') => {
                self.tab = DebugTab::Performance;
            },
            _ => {},
        }
        DebugAction::Nothing
    }
}

impl Default for DebugPanelState {
    fn default() -> (s: Self)
        ensures
            !s.open && s.tab == DebugTab::AppState,
    {
        Self::new()
    }
}

} // verus!
