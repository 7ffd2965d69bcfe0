//! The MCP servers dialog: the configured servers, searched by name, transport and scope,
//! each connected or disconnected from the list.
use vstd::prelude::*;
use crate::listing::{clamp_cursor, clamped_cursor, next_row, prev_row, row_down};
use crate::sorting::indices_where;
use crate::text::{contains_seq, copy_string, lowercase_of, pop_char, push_char, str_contains, to_lowercase};

verus! {

/// The state of a server.
#[derive(Debug, Clone)]
pub enum McpServerStatus {
    Connected,
    Disconnected,
    Error(String),
    Starting,
}

/// One configured server.
#[derive(Debug, Clone)]
pub struct McpServerEntry {
    pub name: String,
    /// `stdio`, `sse`, `http` or `ws`.
    pub transport: String,
    /// `project`, `user` or `global`.
    pub scope: String,
    pub status: McpServerStatus,
    pub tool_count: usize,
}

/// A server matches a lower-cased query when its name, transport and scope, lower-cased and
/// joined by spaces, contain it.
pub open spec fn server_matches(e: McpServerEntry, q: Seq<char>) -> bool {
    contains_seq(lowercase_of(e.name@ + " "@ + e.transport@ + " "@ + e.scope@), q)
}

/// Whether server `e` matches the lower-cased query `q`.
pub fn server_matches_query(e: &McpServerEntry, q: &str) -> (b: bool)
    ensures
        b == server_matches(*e, q@),
{
    let mut t = copy_string(&e.name);
    t.append(" ");
    t.append(e.transport.as_str());
    t.append(" ");
    t.append(e.scope.as_str());
    let l = to_lowercase(t.as_str());
    str_contains(l.as_str(), q)
}

/// The positions of the servers listed for lower-cased query `q`: all of them when it is
/// empty, else those matching it.
pub open spec fn listed_servers(es: Seq<McpServerEntry>, q: Seq<char>) -> Seq<usize> {
    indices_where(es.len() as int, |i: int| q.len() == 0 || server_matches(es[i], q))
}

/// The status after toggling: a connected server disconnects, any other connects.
pub open spec fn toggled_status(s: McpServerStatus) -> McpServerStatus {
    match s {
        McpServerStatus::Connected => McpServerStatus::Disconnected,
        _ => McpServerStatus::Connected,
    }
}

/// The state of the dialog.
pub struct McpDialogState {
    pub open: bool,
    pub servers: Vec<McpServerEntry>,
    pub cursor: usize,
    pub search: String,
    pub filtered: Vec<usize>,
}

impl McpDialogState {
    /// A closed dialog listing no server.
    pub fn new() -> (s: Self)
        ensures
            !s.open,
            s.servers@.len() == 0 && s.filtered@.len() == 0,
            s.cursor == 0 && s.search@.len() == 0,
    {
        McpDialogState {
            open: false,
            servers: Vec::new(),
            cursor: 0,
            search: String::new(),
            filtered: Vec::new(),
        }
    }

    /// Opens the dialog with an empty search: every server is listed.
    pub fn open(&mut self)
        ensures
            final(self).open,
            final(self).search@.len() == 0,
            final(self).servers == old(self).servers,
            final(self).filtered@ == listed_servers(old(self).servers@, lowercase_of(final(self).search@)),
            final(self).cursor == 0,
    {
        self.open = true;
        self.search = String::new();
        self.cursor = 0;
        self.rebuild_filtered();
    }

    /// Closes the dialog.
    pub fn close(&mut self)
        ensures
            !final(self).open,
            final(self).servers == old(self).servers && final(self).filtered == old(self).filtered,
            final(self).cursor == old(self).cursor && final(self).search == old(self).search,
    {
        self.open = false;
    }

    /// Connects or disconnects the server on the cursor's row.
    pub fn toggle_server(&mut self)
        ensures
            ({
                let ok = old(self).cursor < old(self).filtered@.len()
                    && old(self).filtered@[old(self).cursor as int] < old(self).servers@.len();
                let i = old(self).filtered@[old(self).cursor as int] as int;
                &&& ok ==> final(self).servers@ == old(self).servers@.update(
                    i,
                    McpServerEntry { status: toggled_status(old(self).servers@[i].status), ..old(self).servers@[i] },
                )
                &&& !ok ==> final(self).servers == old(self).servers
            }),
            final(self).filtered == old(self).filtered && final(self).cursor == old(self).cursor,
            final(self).open == old(self).open && final(self).search == old(self).search,
    {
        if self.cursor < self.filtered.len() {
            let idx = self.filtered[self.cursor];
            if idx < self.servers.len() {
                let mut e = self.servers.remove(idx);
                e.status = match &e.status {
                    McpServerStatus::Connected => McpServerStatus::Disconnected,
                    _ => McpServerStatus::Connected,
                };
                self.servers.insert(idx, e);
            }
        }
    }

    /// Moves to the row above.
    pub fn cursor_up(&mut self)
        ensures
            final(self).cursor == prev_row(old(self).cursor),
            final(self).filtered == old(self).filtered && final(self).servers == old(self).servers,
    {
        if self.cursor > 0 {
            self.cursor = self.cursor - 1;
        }
    }

    /// Moves to the row below, staying on the last.
    pub fn cursor_down(&mut self)
        ensures
            final(self).cursor == next_row(old(self).cursor, old(self).filtered@.len()),
            final(self).filtered == old(self).filtered && final(self).servers == old(self).servers,
    {
        self.cursor = row_down(self.cursor, self.filtered.len());
    }

    /// Adds a character to the search and lists the matching servers from the first row.
    pub fn type_char(&mut self, c: char)
        ensures
            final(self).search@ == old(self).search@.push(c),
            final(self).servers == old(self).servers,
            final(self).filtered@ == listed_servers(old(self).servers@, lowercase_of(final(self).search@)),
            final(self).cursor == 0,
    {
        push_char(&mut self.search, c);
        self.cursor = 0;
        self.rebuild_filtered();
    }

    /// Removes the last character of the search and lists the matching servers from the
    /// first row.
    pub fn backspace(&mut self)
        ensures
            final(self).search@ == if old(self).search@.len() > 0 {
                old(self).search@.drop_last()
            } else {
                old(self).search@
            },
            final(self).servers == old(self).servers,
            final(self).filtered@ == listed_servers(old(self).servers@, lowercase_of(final(self).search@)),
            final(self).cursor == 0,
    {
        let _ = pop_char(&mut self.search);
        self.cursor = 0;
        self.rebuild_filtered();
    }

    /// Lists the servers matching the search, keeping the cursor within the list.
    pub fn rebuild_filtered(&mut self)
        ensures
            final(self).filtered@ == listed_servers(old(self).servers@, lowercase_of(old(self).search@)),
            final(self).cursor == clamped_cursor(old(self).cursor, final(self).filtered@.len()),
            final(self).servers == old(self).servers && final(self).search == old(self).search,
            final(self).open == old(self).open,
    {
        let query = to_lowercase(self.search.as_str());
        let ghost es = self.servers@;
        let ghost q = query@;
        let ghost p = |i: int| q.len() == 0 || server_matches(es[i], q);
        let empty = query.unicode_len() == 0;
        let mut r: Vec<usize> = Vec::new();
        let mut i: usize = 0;
        while i < self.servers.len()
            invariant
                i <= self.servers@.len(),
                es == self.servers@,
                q == query@,
                empty == (q.len() == 0),
                p == (|i: int| q.len() == 0 || server_matches(es[i], q)),
                r@ == indices_where(i as int, p),
            decreases self.servers@.len() - i,
        {
            if empty || server_matches_query(&self.servers[i], query.as_str()) {
                r.push(i);
            }
            i = i + 1;
        }
        self.filtered = r;
        self.cursor = clamp_cursor(self.cursor, self.filtered.len());
    }
}

} // verus!
