//! The command palette: the application's commands, searched by typed text and grouped in
//! sections (the suggested ones first when nothing is typed, ranked by use).
use vstd::prelude::*;
use crate::frecency::{now_millis, usage_order, EntryModel, FrecencyStore};
use crate::listing::{flatten, offsets_model, push_section, section_at, section_name, sections};
use crate::sorting::{indices_where, is_stable_sort};
use crate::text::{contains_seq, copy_string, lowercase_of, pop_char, push_char, str_contains, str_eq, to_lowercase};

verus! {

/// Rows of commands shown at once.
pub const MAX_VISIBLE_ENTRIES: usize = 20;

/// What a command does.
#[derive(Debug, Clone, Copy, PartialEq, Eq, Structural)]
pub enum CommandAction {
    SwitchModel,
    NewSession,
    SwitchSession,
    ClearConversation,
    Undo,
    Redo,
    ToggleSidebar,
    ShowStatus,
    ShowCost,
    ExportSession,
    ShowMcp,
    ShowSkills,
    ShowPlugins,
    Exit,
    ToggleTheme,
    ShowHelp,
    ForkSession,
    ToggleThinking,
    CompactContext,
    ShowContextViz,
    ShowPromptStash,
    OpenExternalEditor,
    ShowExportOptions,
    ShowProviders,
    ShowWorkspaces,
    AttachSession,
}

/// One command of the palette.
#[derive(Debug, Clone)]
pub struct CommandEntry {
    pub title: String,
    pub description: String,
    pub value: String,
    pub category: String,
    pub shortcut: String,
    pub suggested: bool,
    pub action: CommandAction,
}

/// A command as plain values.
pub struct CommandModel {
    pub title: Seq<char>,
    pub description: Seq<char>,
    pub value: Seq<char>,
    pub category: Seq<char>,
    pub shortcut: Seq<char>,
    pub suggested: bool,
    pub action: CommandAction,
}

/// The plain values of a command.
pub open spec fn command_model(e: CommandEntry) -> CommandModel {
    CommandModel {
        title: e.title@,
        description: e.description@,
        value: e.value@,
        category: e.category@,
        shortcut: e.shortcut@,
        suggested: e.suggested,
        action: e.action,
    }
}

/// What a search is matched against: title, description, category and shortcut, lower-cased.
pub open spec fn search_text_of(e: CommandEntry) -> Seq<char> {
    lowercase_of(
        e.title@ + " "@ + e.description@ + " "@ + e.category@ + " "@ + e.shortcut@,
    )
}

impl CommandEntry {
    /// The text a search is matched against.
    pub fn search_text(&self) -> (r: String)
        ensures
            r@ == search_text_of(*self),
    {
        let mut t = copy_string(&self.title);
        t.append(" ");
        t.append(self.description.as_str());
        t.append(" ");
        t.append(self.category.as_str());
        t.append(" ");
        t.append(self.shortcut.as_str());
        to_lowercase(t.as_str())
    }
}

fn command(
    title: &str,
    description: &str,
    value: &str,
    category: &str,
    shortcut: &str,
    suggested: bool,
    action: CommandAction,
) -> (e: CommandEntry)
    ensures
        command_model(e) == (CommandModel {
            title: title@,
            description: description@,
            value: value@,
            category: category@,
            shortcut: shortcut@,
            suggested,
            action,
        }),
{
    CommandEntry {
        title: String::from_str(title),
        description: String::from_str(description),
        value: String::from_str(value),
        category: String::from_str(category),
        shortcut: String::from_str(shortcut),
        suggested,
        action,
    }
}

/// A command as a row of the table below.
pub open spec fn row(
    title: &str,
    description: &str,
    value: &str,
    category: &str,
    shortcut: &str,
    suggested: bool,
    action: CommandAction,
) -> CommandModel {
    CommandModel {
        title: title@,
        description: description@,
        value: value@,
        category: category@,
        shortcut: shortcut@,
        suggested,
        action,
    }
}

/// The application's commands, in palette order.
pub open spec fn command_table() -> Seq<CommandModel> {
    seq![
        row("Switch model", "Change the current AI model", "model.list", "Agent", "Ctrl+M", true, CommandAction::SwitchModel),
        row("MCP servers", "Manage MCP server connections", "mcp.list", "Agent", "", false, CommandAction::ShowMcp),
        row("Skills", "Browse and manage installed skills", "skills.list", "Agent", "", false, CommandAction::ShowSkills),
        row("Plugins", "Browse and manage plugins", "plugins.list", "Agent", "", false, CommandAction::ShowPlugins),
        row("Toggle thinking", "Toggle extended thinking mode", "thinking.toggle", "Agent", "", false, CommandAction::ToggleThinking),
        row("New session", "Start a fresh conversation", "session.new", "Session", "", true, CommandAction::NewSession),
        row("Switch session", "Browse and resume previous sessions", "session.list", "Session", "Ctrl+X L", true, CommandAction::SwitchSession),
        row("Fork session", "Create a branch from this point", "session.fork", "Session", "", false, CommandAction::ForkSession),
        row("Clear conversation", "Clear current conversation history", "session.clear", "Session", "Ctrl+L", false, CommandAction::ClearConversation),
        row("Undo last message", "Undo last message and tool changes", "session.undo", "Session", "PgUp", false, CommandAction::Undo),
        row("Redo", "Redo a previously undone message", "session.redo", "Session", "PgDn", false, CommandAction::Redo),
        row("Export session", "Export conversation to file", "session.export", "Session", "", false, CommandAction::ExportSession),
        row("Compact context", "Summarize and compress context window", "session.compact", "Session", "", false, CommandAction::CompactContext),
        row("Context window", "Visualize current context usage", "context.show", "Session", "", false, CommandAction::ShowContextViz),
        row("Prompt Stash", "Browse saved prompt snippets", "/stash", "Session", "Ctrl+S", false, CommandAction::ShowPromptStash),
        row("External Editor", "Open prompt in external editor", "/editor", "Session", "Alt+E", false, CommandAction::OpenExternalEditor),
        row("Export options", "Choose export format and scope", "/export", "Session", "", false, CommandAction::ShowExportOptions),
        row("Provider connections", "View connected AI providers", "providers.list", "Agent", "", false, CommandAction::ShowProviders),
        row("Workspaces", "Browse and switch workspaces", "workspaces.list", "Session", "", false, CommandAction::ShowWorkspaces),
        row("Attach to session", "Attach to a running session", "session.attach", "Session", "", false, CommandAction::AttachSession),
        row("Toggle sidebar", "Show or hide the sidebar", "sidebar.toggle", "Session", "Alt+S", false, CommandAction::ToggleSidebar),
        row("View status", "Show session status and stats", "status.view", "System", "", false, CommandAction::ShowStatus),
        row("Show cost", "Display token cost breakdown", "cost.show", "System", "", false, CommandAction::ShowCost),
        row("Toggle theme", "Switch between color themes", "theme.toggle", "System", "", true, CommandAction::ToggleTheme),
        row("Help & keybindings", "Show available shortcuts", "help.show", "System", "?", false, CommandAction::ShowHelp),
        row("Exit", "Close the application", "app.exit", "System", "Ctrl+C", false, CommandAction::Exit),
    ]
}

/// The plain values of a list of commands.
pub open spec fn command_models(es: Seq<CommandEntry>) -> Seq<CommandModel> {
    es.map_values(|e: CommandEntry| command_model(e))
}

/// The application's commands.
pub fn register_commands() -> (r: Vec<CommandEntry>)
    ensures
        command_models(r@) == command_table(),
{
    let mut r: Vec<CommandEntry> = Vec::new();
    r.push(command("Switch model", "Change the current AI model", "model.list", "Agent", "Ctrl+M", true, CommandAction::SwitchModel));
    r.push(command("MCP servers", "Manage MCP server connections", "mcp.list", "Agent", "", false, CommandAction::ShowMcp));
    r.push(command("Skills", "Browse and manage installed skills", "skills.list", "Agent", "", false, CommandAction::ShowSkills));
    r.push(command("Plugins", "Browse and manage plugins", "plugins.list", "Agent", "", false, CommandAction::ShowPlugins));
    r.push(command("Toggle thinking", "Toggle extended thinking mode", "thinking.toggle", "Agent", "", false, CommandAction::ToggleThinking));
    r.push(command("New session", "Start a fresh conversation", "session.new", "Session", "", true, CommandAction::NewSession));
    r.push(command("Switch session", "Browse and resume previous sessions", "session.list", "Session", "Ctrl+X L", true, CommandAction::SwitchSession));
    r.push(command("Fork session", "Create a branch from this point", "session.fork", "Session", "", false, CommandAction::ForkSession));
    r.push(command("Clear conversation", "Clear current conversation history", "session.clear", "Session", "Ctrl+L", false, CommandAction::ClearConversation));
    r.push(command("Undo last message", "Undo last message and tool changes", "session.undo", "Session", "PgUp", false, CommandAction::Undo));
    r.push(command("Redo", "Redo a previously undone message", "session.redo", "Session", "PgDn", false, CommandAction::Redo));
    r.push(command("Export session", "Export conversation to file", "session.export", "Session", "", false, CommandAction::ExportSession));
    r.push(command("Compact context", "Summarize and compress context window", "session.compact", "Session", "", false, CommandAction::CompactContext));
    r.push(command("Context window", "Visualize current context usage", "context.show", "Session", "", false, CommandAction::ShowContextViz));
    r.push(command("Prompt Stash", "Browse saved prompt snippets", "/stash", "Session", "Ctrl+S", false, CommandAction::ShowPromptStash));
    r.push(command("External Editor", "Open prompt in external editor", "/editor", "Session", "Alt+E", false, CommandAction::OpenExternalEditor));
    r.push(command("Export options", "Choose export format and scope", "/export", "Session", "", false, CommandAction::ShowExportOptions));
    r.push(command("Provider connections", "View connected AI providers", "providers.list", "Agent", "", false, CommandAction::ShowProviders));
    r.push(command("Workspaces", "Browse and switch workspaces", "workspaces.list", "Session", "", false, CommandAction::ShowWorkspaces));
    r.push(command("Attach to session", "Attach to a running session", "session.attach", "Session", "", false, CommandAction::AttachSession));
    r.push(command("Toggle sidebar", "Show or hide the sidebar", "sidebar.toggle", "Session", "Alt+S", false, CommandAction::ToggleSidebar));
    r.push(command("View status", "Show session status and stats", "status.view", "System", "", false, CommandAction::ShowStatus));
    r.push(command("Show cost", "Display token cost breakdown", "cost.show", "System", "", false, CommandAction::ShowCost));
    r.push(command("Toggle theme", "Switch between color themes", "theme.toggle", "System", "", true, CommandAction::ToggleTheme));
    r.push(command("Help & keybindings", "Show available shortcuts", "help.show", "System", "?", false, CommandAction::ShowHelp));
    r.push(command("Exit", "Close the application", "app.exit", "System", "Ctrl+C", false, CommandAction::Exit));
    assert(command_models(r@) =~= command_table());
    r
}

// ---------------------------------------------------------------------------
// Sections
// ---------------------------------------------------------------------------

/// A command is listed in section `cat` for query `q`: it belongs to the category and, with
/// no query, is not a suggested one (those have their own section); with a query, its
/// search text contains the query.
pub open spec fn listed_in(e: CommandEntry, cat: Seq<char>, q: Seq<char>) -> bool {
    e.category@ == cat && if q.len() == 0 {
        !e.suggested
    } else {
        contains_seq(search_text_of(e), q)
    }
}

/// The positions of the commands listed in section `cat`, in order.
pub open spec fn category_part(es: Seq<CommandEntry>, cat: Seq<char>, q: Seq<char>) -> Seq<usize> {
    indices_where(es.len() as int, |i: int| listed_in(es[i], cat, q))
}

/// The positions of the suggested commands, in order.
pub open spec fn suggested_part(es: Seq<CommandEntry>) -> Seq<usize> {
    indices_where(es.len() as int, |i: int| es[i].suggested)
}

/// The values of the commands at the given positions.
pub open spec fn values_at(es: Seq<CommandEntry>, idx: Seq<usize>) -> Seq<Seq<char>> {
    idx.map_values(|i: usize| es[i as int].value@)
}

/// `r` lists the positions `idx` ordered by the use of their commands' values at `now`,
/// best first, ties in their order.
pub open spec fn ranked_positions(
    usage: Seq<EntryModel>,
    es: Seq<CommandEntry>,
    idx: Seq<usize>,
    now: u128,
    r: Seq<usize>,
) -> bool {
    exists|perm: Seq<usize>|
        #[trigger] is_stable_sort(usage_order(usage, values_at(es, idx), now), idx.len() as int, perm)
            && r.len() == perm.len() && forall|k: int| 0 <= k < perm.len() ==> #[trigger] r[k] == idx[perm[k] as int]
}

/// The sections in order: suggested (given), then the three categories.
pub open spec fn palette_parts(es: Seq<CommandEntry>, q: Seq<char>, sugg: Seq<usize>) -> Seq<(Seq<char>, Seq<usize>)> {
    seq![
        ("Suggested"@, sugg),
        ("Agent"@, category_part(es, "Agent"@, q)),
        ("Session"@, category_part(es, "Session"@, q)),
        ("System"@, category_part(es, "System"@, q)),
    ]
}

/// The suggested section for query `q` and use records `usage` at `now`: nothing when a
/// query is typed; else the suggested commands, ranked by use when records are given.
pub open spec fn suggested_section(
    es: Seq<CommandEntry>,
    q: Seq<char>,
    usage: Option<Seq<EntryModel>>,
    now: u128,
    sugg: Seq<usize>,
) -> bool {
    if q.len() > 0 {
        sugg.len() == 0
    } else {
        match usage {
            Some(u) => ranked_positions(u, es, suggested_part(es), now, sugg),
            None => sugg == suggested_part(es),
        }
    }
}

/// The palette state.
pub struct CommandPaletteState {
    pub open: bool,
    pub entries: Vec<CommandEntry>,
    pub filtered: Vec<usize>,
    pub search: String,
    pub cursor: usize,
    pub selected: Option<String>,
    pub section_offsets: Vec<(String, usize)>,
    pub frecency_store: Option<FrecencyStore>,
}

/// `s` is `o` with the list rebuilt for its search at time `now` (see `palette_parts`), the
/// cursor kept within the list.
pub open spec fn refiltered(o: CommandPaletteState, s: CommandPaletteState, now: u128) -> bool {
    let q = lowercase_of(o.search@);
    &&& exists|sugg: Seq<usize>|
        #[trigger] suggested_section(o.entries@, q, o.usage(), now, sugg) && s.filtered@ == flatten(
            palette_parts(o.entries@, q, sugg),
        ) && offsets_model(s.section_offsets@) == sections(palette_parts(o.entries@, q, sugg))
    &&& s.cursor == if o.cursor >= s.filtered@.len() {
        if s.filtered@.len() > 0 { (s.filtered@.len() - 1) as usize } else { 0 }
    } else {
        o.cursor
    }
    &&& s.open == o.open && s.entries == o.entries && s.search == o.search
    &&& s.selected == o.selected && s.frecency_store == o.frecency_store
}

/// `o` opened with search `search`, before its list is rebuilt.
pub open spec fn opening(o: CommandPaletteState, search: String) -> CommandPaletteState {
    CommandPaletteState { open: true, search, cursor: 0, selected: None, ..o }
}

/// `o` with search `search` and the cursor on the first row, before its list is rebuilt.
pub open spec fn searching(o: CommandPaletteState, search: String) -> CommandPaletteState {
    CommandPaletteState { search, cursor: 0, ..o }
}

impl CommandPaletteState {
    /// The use records of the palette's store, if it has one.
    pub open spec fn usage(&self) -> Option<Seq<EntryModel>> {
        match self.frecency_store {
            Some(f) => Some(f.models()),
            None => None,
        }
    }

    /// A closed palette holding the application's commands.
    pub fn new() -> (s: Self)
        ensures
            !s.open,
            command_models(s.entries@) == command_table(),
            s.filtered@.len() == 0 && s.section_offsets@.len() == 0,
            s.search@.len() == 0 && s.cursor == 0,
            s.selected is None && s.frecency_store is None,
    {
        CommandPaletteState {
            open: false,
            entries: register_commands(),
            filtered: Vec::new(),
            search: String::new(),
            cursor: 0,
            selected: None,
            section_offsets: Vec::new(),
            frecency_store: None,
        }
    }

    /// A closed palette that ranks suggestions by the use recorded in `store`.
    pub fn with_frecency(store: FrecencyStore) -> (s: Self)
        ensures
            !s.open,
            command_models(s.entries@) == command_table(),
            s.filtered@.len() == 0 && s.section_offsets@.len() == 0,
            s.search@.len() == 0 && s.cursor == 0,
            s.selected is None,
            s.frecency_store == Some(store),
    {
        let mut state = Self::new();
        state.frecency_store = Some(store);
        state
    }

    /// Opens the palette with an empty search.
    pub fn open(&mut self)
        ensures
            exists|t: u128|
                #[trigger] refiltered(opening(*old(self), final(self).search), *final(self), t),
            final(self).open,
            final(self).search@.len() == 0,
            final(self).selected is None,
    {
        self.open = true;
        self.search = String::new();
        self.cursor = 0;
        self.selected = None;
        self.rebuild_filtered();
    }

    /// Closes the palette.
    pub fn close(&mut self)
        ensures
            *final(self) == (CommandPaletteState { open: false, ..*old(self) }),
    {
        self.open = false;
    }

    fn category_indices(&self, cat: &str, q: &str) -> (r: Vec<usize>)
        ensures
            r@ == category_part(self.entries@, cat@, q@),
    {
        let ghost es = self.entries@;
        let ghost p = |i: int| listed_in(es[i], cat@, q@);
        let mut r: Vec<usize> = Vec::new();
        let mut i: usize = 0;
        while i < self.entries.len()
            invariant
                i <= self.entries@.len(),
                es == self.entries@,
                p == (|i: int| listed_in(es[i], cat@, q@)),
                r@ == indices_where(i as int, p),
            decreases self.entries@.len() - i,
        {
            let e = &self.entries[i];
            let keep = if str_eq(e.category.as_str(), cat) {
                if q.unicode_len() == 0 {
                    !e.suggested
                } else {
                    let t = e.search_text();
                    str_contains(t.as_str(), q)
                }
            } else {
                false
            };
            if keep {
                r.push(i);
            }
            i = i + 1;
        }
        r
    }

    fn suggested_indices(&self) -> (r: Vec<usize>)
        ensures
            r@ == suggested_part(self.entries@),
            forall|j: int| 0 <= j < r@.len() ==> #[trigger] r@[j] < self.entries@.len(),
    {
        let ghost es = self.entries@;
        let ghost p = |i: int| es[i].suggested;
        let mut r: Vec<usize> = Vec::new();
        let mut i: usize = 0;
        while i < self.entries.len()
            invariant
                i <= self.entries@.len(),
                es == self.entries@,
                p == (|i: int| es[i].suggested),
                r@ == indices_where(i as int, p),
                forall|j: int| 0 <= j < r@.len() ==> #[trigger] r@[j] < i,
            decreases self.entries@.len() - i,
        {
            if self.entries[i].suggested {
                r.push(i);
            }
            i = i + 1;
        }
        r
    }

    /// Rebuilds the list for the current search at time `now`: with no search, the suggested
    /// commands first (ranked by use when the palette has use records), then the other
    /// commands of the Agent, Session and System categories; with a search, the commands of
    /// those categories whose search text contains the lower-cased search. The cursor is
    /// kept within the list.
    pub fn rebuild_filtered_at(&mut self, now: u128)
        ensures
            refiltered(*old(self), *final(self), now),
    {
        let query = to_lowercase(self.search.as_str());
        let ghost q = query@;
        let ghost es = self.entries@;
        let sugg: Vec<usize> = if query.unicode_len() == 0 {
            let plain = self.suggested_indices();
            match &self.frecency_store {
                Some(store) => {
                    let mut values: Vec<String> = Vec::new();
                    let mut k: usize = 0;
                    while k < plain.len()
                        invariant
                            k <= plain@.len(),
                            es == self.entries@,
                            plain@ == suggested_part(es),
                            forall|j: int| 0 <= j < plain@.len() ==> #[trigger] plain@[j] < es.len(),
                            values@.len() == k,
                            forall|j: int| 0 <= j < k ==> #[trigger] values@[j]@ == es[plain@[j] as int].value@,
                        decreases plain@.len() - k,
                    {
                        values.push(copy_string(&self.entries[plain[k]].value));
                        k = k + 1;
                    }
                    let perm = store.rank_by_usage(&values, now);
                    assert(values@.map_values(|t: String| t@) =~= values_at(es, plain@));
                    let mut r: Vec<usize> = Vec::new();
                    let mut k: usize = 0;
                    while k < perm.len()
                        invariant
                            k <= perm@.len(),
                            perm@.len() == plain@.len(),
                            forall|j: int| 0 <= j < perm@.len() ==> #[trigger] perm@[j] < plain@.len(),
                            r@.len() == k,
                            forall|j: int| 0 <= j < k ==> #[trigger] r@[j] == plain@[perm@[j] as int],
                        decreases perm@.len() - k,
                    {
                        r.push(plain[perm[k]]);
                        k = k + 1;
                    }
                    assert(ranked_positions(store.models(), es, plain@, now, r@));
                    r
                },
                None => plain,
            }
        } else {
            Vec::new()
        };
        assert(suggested_section(es, q, self.usage(), now, sugg@));
        let agent = self.category_indices("Agent", query.as_str());
        let session = self.category_indices("Session", query.as_str());
        let system = self.category_indices("System", query.as_str());
        let mut filtered: Vec<usize> = Vec::new();
        let mut offsets: Vec<(String, usize)> = Vec::new();
        push_section(&mut filtered, &mut offsets, "Suggested", sugg);
        push_section(&mut filtered, &mut offsets, "Agent", agent);
        push_section(&mut filtered, &mut offsets, "Session", session);
        push_section(&mut filtered, &mut offsets, "System", system);
        proof {
            let parts = palette_parts(es, q, sugg@);
            reveal_with_fuel(flatten, 5);
            reveal_with_fuel(sections, 5);
            assert(parts.drop_last().drop_last().drop_last().drop_last() =~= Seq::<(Seq<char>, Seq<usize>)>::empty());
            assert(filtered@ =~= flatten(parts));
            assert(offsets_model(offsets@) =~= sections(parts));
        }
        self.filtered = filtered;
        self.section_offsets = offsets;
        if self.cursor >= self.filtered.len() {
            self.cursor = if self.filtered.len() > 0 {
                self.filtered.len() - 1
            } else {
                0
            };
        }
    }

    /// Rebuilds the list for the current search now (see `rebuild_filtered_at`).
    pub fn rebuild_filtered(&mut self)
        ensures
            exists|t: u128| #[trigger] refiltered(*old(self), *final(self), t),
    {
        let now = now_millis();
        self.rebuild_filtered_at(now);
    }

    /// Moves to the row above.
    pub fn cursor_up(&mut self)
        ensures
            final(self).cursor == if old(self).cursor > 0 { (old(self).cursor - 1) as usize } else { 0 },
            final(self).filtered == old(self).filtered && final(self).open == old(self).open,
    {
        if self.cursor > 0 {
            self.cursor = self.cursor - 1;
        }
    }

    /// Moves to the row below, staying at the last.
    pub fn cursor_down(&mut self)
        ensures
            final(self).cursor == if old(self).cursor + 1 < old(self).filtered@.len() {
                (old(self).cursor + 1) as usize
            } else {
                old(self).cursor
            },
            final(self).filtered == old(self).filtered && final(self).open == old(self).open,
    {
        if self.filtered.len() > 0 && self.cursor < self.filtered.len() - 1 {
            self.cursor = self.cursor + 1;
        }
    }

    /// Adds a character to the search and rebuilds the list from the first row.
    pub fn type_char(&mut self, c: char)
        ensures
            final(self).search@ == old(self).search@.push(c),
            exists|t: u128|
                #[trigger] refiltered(searching(*old(self), final(self).search), *final(self), t),
    {
        push_char(&mut self.search, c);
        self.cursor = 0;
        self.rebuild_filtered();
    }

    /// Removes the last character of the search and rebuilds the list from the first row.
    pub fn backspace(&mut self)
        ensures
            final(self).search@ == if old(self).search@.len() > 0 {
                old(self).search@.drop_last()
            } else {
                old(self).search@
            },
            exists|t: u128|
                #[trigger] refiltered(searching(*old(self), final(self).search), *final(self), t),
    {
        let _ = pop_char(&mut self.search);
        self.cursor = 0;
        self.rebuild_filtered();
    }

    /// Chooses the command on the cursor's row: its value becomes the selection and the
    /// palette closes. Nothing happens when the row lists no command.
    pub fn confirm(&mut self)
        ensures
            ({
                let ok = old(self).cursor < old(self).filtered@.len()
                    && old(self).filtered@[old(self).cursor as int] < old(self).entries@.len();
                &&& ok ==> !final(self).open && (final(self).selected matches Some(v) && v@
                    == old(self).entries@[old(self).filtered@[old(self).cursor as int] as int].value@)
                    && *final(self) == (CommandPaletteState { open: false, selected: final(self).selected, ..*old(self) })
                &&& !ok ==> *final(self) == *old(self)
            }),
            final(self).entries == old(self).entries && final(self).filtered == old(self).filtered,
    {
        if self.cursor < self.filtered.len() {
            let idx = self.filtered[self.cursor];
            if idx < self.entries.len() {
                self.selected = Some(copy_string(&self.entries[idx].value));
                self.close();
            }
        }
    }

    /// The name of the section the cursor is in (`Commands` before the first).
    pub fn current_section(&self) -> (r: &str)
        ensures
            r@ == section_at(offsets_model(self.section_offsets@), self.cursor as int, "Commands"@),
    {
        section_name(&self.section_offsets, self.cursor, "Commands")
    }
}

/// The first row shown in a list of `visible_lines` rows: the cursor is kept in the middle
/// once it is past the first half.
pub fn compute_scroll_offset(state: &CommandPaletteState, visible_lines: usize) -> (r: usize)
    ensures
        r == if state.cursor < visible_lines / 2 { 0 } else { (state.cursor - visible_lines / 2) as usize },
{
    if state.cursor < visible_lines / 2 {
        return 0;
    }
    state.cursor - visible_lines / 2
}

} // verus!
