//! The agent picker: the configured agents, searched by name and description.
use vstd::prelude::*;
use crate::listing::{clamp_cursor, clamped_cursor, next_row, prev_row, row_down};
use crate::sorting::indices_where;
use crate::text::{contains_seq, copy_string, lowercase_of, pop_char, push_char, str_contains, to_lowercase};

verus! {

/// Where an agent can run: as the main agent, as a sub-agent, or both.
#[derive(Debug, Clone, Copy, PartialEq, Eq, Structural)]
pub enum AgentMode {
    Primary,
    Subagent,
    All,
}

/// The label shown for an agent's mode.
pub fn mode_label(mode: &AgentMode) -> (r: &'static str)
    ensures
        r@ == match *mode {
            AgentMode::Primary => "Primary"@,
            AgentMode::Subagent => "Subagent"@,
            AgentMode::All => "All"@,
        },
{
    match mode {
        AgentMode::Primary => "Primary",
        AgentMode::Subagent => "Subagent",
        AgentMode::All => "All",
    }
}

/// An agent as the picker sees it: its name, description and mode.
#[derive(Debug, Clone)]
pub struct AgentEntry {
    pub name: String,
    pub description: String,
    pub mode: AgentMode,
}

/// An agent is listed for a lower-cased query when the query is empty or its lower-cased
/// name and description, joined by a space, contain it.
pub open spec fn agent_listed(a: AgentEntry, q: Seq<char>) -> bool {
    q.len() == 0 || contains_seq(lowercase_of(a.name@ + " "@ + a.description@), q)
}

/// The positions of the agents listed for query `q`, in order.
pub open spec fn listed_agents(agents: Seq<AgentEntry>, q: Seq<char>) -> Seq<usize> {
    indices_where(agents.len() as int, |i: int| agent_listed(agents[i], q))
}

/// The state of the picker.
pub struct AgentPickerState {
    pub open: bool,
    pub cursor: usize,
    pub search: String,
    pub filtered: Vec<usize>,
}

impl AgentPickerState {
    /// A closed picker.
    pub fn new() -> (s: Self)
        ensures
            !s.open && s.cursor == 0 && s.search@.len() == 0 && s.filtered@.len() == 0,
    {
        AgentPickerState { open: false, cursor: 0, search: String::new(), filtered: Vec::new() }
    }

    /// Opens the picker over `agents` with an empty search.
    pub fn open(&mut self, agents: &Vec<AgentEntry>)
        ensures
            final(self).open && final(self).search@.len() == 0 && final(self).cursor == 0,
            final(self).filtered@ == listed_agents(agents@, lowercase_of(final(self).search@)),
    {
        self.open = true;
        self.search = String::new();
        self.cursor = 0;
        self.rebuild_filtered(agents);
    }

    /// Closes the picker.
    pub fn close(&mut self)
        ensures
            !final(self).open && final(self).cursor == old(self).cursor,
            final(self).filtered == old(self).filtered && final(self).search == old(self).search,
    {
        self.open = false;
    }

    /// The name of the agent on the cursor's row, closing the picker; nothing when the row
    /// lists no agent.
    pub fn select(&mut self, agents: &Vec<AgentEntry>) -> (r: Option<String>)
        ensures
            ({
                let ok = old(self).cursor < old(self).filtered@.len()
                    && old(self).filtered@[old(self).cursor as int] < agents@.len();
                &&& ok ==> !final(self).open && (r matches Some(n) && n@
                    == agents@[old(self).filtered@[old(self).cursor as int] as int].name@)
                &&& !ok ==> r is None && final(self).open == old(self).open
            }),
            final(self).filtered == old(self).filtered && final(self).cursor == old(self).cursor,
    {
        if self.cursor < self.filtered.len() {
            let idx = self.filtered[self.cursor];
            if idx < agents.len() {
                let name = copy_string(&agents[idx].name);
                self.close();
                return Some(name);
            }
        }
        None
    }

    /// Moves to the row above.
    pub fn cursor_up(&mut self)
        ensures
            final(self).cursor == prev_row(old(self).cursor),
            final(self).filtered == old(self).filtered,
    {
        if self.cursor > 0 {
            self.cursor = self.cursor - 1;
        }
    }

    /// Moves to the row below, staying on the last.
    pub fn cursor_down(&mut self, agents: &Vec<AgentEntry>)
        ensures
            final(self).cursor == next_row(old(self).cursor, old(self).filtered@.len()),
            final(self).filtered == old(self).filtered,
    {
        self.cursor = row_down(self.cursor, self.filtered.len());
    }

    /// Adds a character to the search and lists again from the first row.
    pub fn type_char(&mut self, c: char, agents: &Vec<AgentEntry>)
        ensures
            final(self).search@ == old(self).search@.push(c),
            final(self).filtered@ == listed_agents(agents@, lowercase_of(final(self).search@)),
            final(self).cursor == 0,
    {
        push_char(&mut self.search, c);
        self.cursor = 0;
        self.rebuild_filtered(agents);
    }

    /// Removes the last character of the search and lists again from the first row.
    pub fn backspace(&mut self, agents: &Vec<AgentEntry>)
        ensures
            final(self).search@ == if old(self).search@.len() > 0 {
                old(self).search@.drop_last()
            } else {
                old(self).search@
            },
            final(self).filtered@ == listed_agents(agents@, lowercase_of(final(self).search@)),
            final(self).cursor == 0,
    {
        let _ = pop_char(&mut self.search);
        self.cursor = 0;
        self.rebuild_filtered(agents);
    }

    /// Lists the agents matching the search, keeping the cursor within the list.
    pub fn rebuild_filtered(&mut self, agents: &Vec<AgentEntry>)
        ensures
            final(self).filtered@ == listed_agents(agents@, lowercase_of(old(self).search@)),
            final(self).cursor == clamped_cursor(old(self).cursor, final(self).filtered@.len()),
            final(self).search == old(self).search && final(self).open == old(self).open,
    {
        let query = to_lowercase(self.search.as_str());
        let ghost q = query@;
        let ghost p = |i: int| agent_listed(agents@[i], q);
        let mut r: Vec<usize> = Vec::new();
        let mut i: usize = 0;
        while i < agents.len()
            invariant
                i <= agents@.len(),
                q == query@,
                p == (|i: int| agent_listed(agents@[i], q)),
                r@ == indices_where(i as int, p),
            decreases agents@.len() - i,
        {
            let keep = query.unicode_len() == 0 || {
                let mut t = copy_string(&agents[i].name);
                t.append(" ");
                t.append(agents[i].description.as_str());
                let l = to_lowercase(t.as_str());
                str_contains(l.as_str(), query.as_str())
            };
            if keep {
                r.push(i);
            }
            i = i + 1;
        }
        self.filtered = r;
        self.cursor = clamp_cursor(self.cursor, self.filtered.len());
    }
}

impl Default for AgentPickerState {
    fn default() -> (s: Self)
        ensures
            !s.open && s.cursor == 0 && s.filtered@.len() == 0,
    {
        Self::new()
    }
}

} // verus!
