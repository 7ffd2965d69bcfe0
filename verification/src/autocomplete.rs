//! The completion popup of the prompt: slash commands, files and agents, filtered by what was
//! typed after the trigger character. Scanning the working directory is left to the caller,
//! which hands in the list of files.
use vstd::prelude::*;
use crate::file_picker::{fuzzy_match, is_subsequence, subseq_from, matching_files, ranked_files, subsequence_of};
use crate::frecency::{now_millis, recorded, usage_order, EntryModel, FrecencyStore};
use crate::input::{
    chip_starts, clamped, is_known_agent, is_ref, lemma_ref_run_end, ref_run_end, segments_of, InputState,
    SegmentModel,
};
use crate::sorting::is_stable_sort;
use crate::text::{views, 
    chars_of, copy_string, is_blank, is_white_space, lowercase_of, splice_chars, str_eq,
    str_tail_from_byte, string_of, tail_from_byte, to_lowercase, trimmed,
};

verus! {

// ---------------------------------------------------------------------------
// Fixed lists and their help texts
// ---------------------------------------------------------------------------

/// The agents offered after `@`, in the order listed.
pub open spec fn known_agent_list() -> Seq<Seq<char>> {
    seq!["build"@, "plan"@, "debug"@, "review"@, "test"@]
}

/// The agents offered after `@`.
pub fn known_agents() -> (r: Vec<String>)
    ensures
        views(r@) == known_agent_list(),
{
    let mut r: Vec<String> = Vec::new();
    r.push(String::from_str("build"));
    r.push(String::from_str("plan"));
    r.push(String::from_str("debug"));
    r.push(String::from_str("review"));
    r.push(String::from_str("test"));
    assert(views(r@) =~= known_agent_list());
    r
}

/// The one-line description of an agent; empty for an unknown name.
pub open spec fn agent_help(agent: Seq<char>) -> Seq<char> {
    if agent == "build"@ {
        "Implement features, fix bugs, refactor"@
    } else if agent == "plan"@ {
        "Explore codebase and create implementation plans"@
    } else if agent == "debug"@ {
        "Diagnose and fix issues systematically"@
    } else if agent == "review"@ {
        "Review code for quality and security"@
    } else if agent == "test"@ {
        "Write and run tests"@
    } else {
        ""@
    }
}

/// The one-line description of an agent; empty for an unknown name.
pub fn agent_help_text(agent: &str) -> (r: &'static str)
    ensures
        r@ == agent_help(agent@),
{
    if str_eq(agent, "build") {
        "Implement features, fix bugs, refactor"
    } else if str_eq(agent, "plan") {
        "Explore codebase and create implementation plans"
    } else if str_eq(agent, "debug") {
        "Diagnose and fix issues systematically"
    } else if str_eq(agent, "review") {
        "Review code for quality and security"
    } else if str_eq(agent, "test") {
        "Write and run tests"
    } else {
        ""
    }
}

/// The slash commands offered after `/`, in the order listed.
pub open spec fn slash_command_list() -> Seq<Seq<char>> {
    seq![
        "/help"@,
        "/status"@,
        "/cost"@,
        "/compact"@,
        "/clear"@,
        "/model"@,
        "/permissions"@,
        "/config"@,
        "/memory"@,
        "/diff"@,
        "/export"@,
        "/session"@,
        "/version"@,
        "/undo"@,
        "/redo"@,
    ]
}

/// The slash commands offered after `/`.
pub fn slash_commands() -> (r: Vec<String>)
    ensures
        views(r@) == slash_command_list(),
{
    let mut r: Vec<String> = Vec::new();
    r.push(String::from_str("/help"));
    r.push(String::from_str("/status"));
    r.push(String::from_str("/cost"));
    r.push(String::from_str("/compact"));
    r.push(String::from_str("/clear"));
    r.push(String::from_str("/model"));
    r.push(String::from_str("/permissions"));
    r.push(String::from_str("/config"));
    r.push(String::from_str("/memory"));
    r.push(String::from_str("/diff"));
    r.push(String::from_str("/export"));
    r.push(String::from_str("/session"));
    r.push(String::from_str("/version"));
    r.push(String::from_str("/undo"));
    r.push(String::from_str("/redo"));
    assert(views(r@) =~= slash_command_list());
    r
}

/// The one-line description of a slash command; empty for an unknown command.
pub open spec fn command_help(cmd: Seq<char>) -> Seq<char> {
    if cmd == "/help"@ {
        "Show available slash commands"@
    } else if cmd == "/status"@ {
        "Show current session status"@
    } else if cmd == "/cost"@ {
        "Show cumulative token usage"@
    } else if cmd == "/compact"@ {
        "Compact conversation context"@
    } else if cmd == "/clear"@ {
        "Clear the current conversation"@
    } else if cmd == "/model"@ {
        "Show or switch current model"@
    } else if cmd == "/permissions"@ {
        "Show or switch permission mode"@
    } else if cmd == "/config"@ {
        "Inspect configuration"@
    } else if cmd == "/memory"@ {
        "Inspect project memory files"@
    } else if cmd == "/diff"@ {
        "Show git diff"@
    } else if cmd == "/export"@ {
        "Export conversation to file"@
    } else if cmd == "/session"@ {
        "List or switch sessions"@
    } else if cmd == "/version"@ {
        "Show CLI version"@
    } else if cmd == "/undo"@ {
        "Undo the last action"@
    } else if cmd == "/redo"@ {
        "Redo the last undone action"@
    } else {
        ""@
    }
}

/// The one-line description of a slash command; empty for an unknown command.
pub fn command_help_text(cmd: &str) -> (r: &'static str)
    ensures
        r@ == command_help(cmd@),
{
    if str_eq(cmd, "/help") {
        "Show available slash commands"
    } else if str_eq(cmd, "/status") {
        "Show current session status"
    } else if str_eq(cmd, "/cost") {
        "Show cumulative token usage"
    } else if str_eq(cmd, "/compact") {
        "Compact conversation context"
    } else if str_eq(cmd, "/clear") {
        "Clear the current conversation"
    } else if str_eq(cmd, "/model") {
        "Show or switch current model"
    } else if str_eq(cmd, "/permissions") {
        "Show or switch permission mode"
    } else if str_eq(cmd, "/config") {
        "Inspect configuration"
    } else if str_eq(cmd, "/memory") {
        "Inspect project memory files"
    } else if str_eq(cmd, "/diff") {
        "Show git diff"
    } else if str_eq(cmd, "/export") {
        "Export conversation to file"
    } else if str_eq(cmd, "/session") {
        "List or switch sessions"
    } else if str_eq(cmd, "/version") {
        "Show CLI version"
    } else if str_eq(cmd, "/undo") {
        "Undo the last action"
    } else if str_eq(cmd, "/redo") {
        "Redo the last undone action"
    } else {
        ""
    }
}

// ---------------------------------------------------------------------------
// Matching
// ---------------------------------------------------------------------------

/// `target` matches `query`: the query is empty, or its lower-cased characters appear in order
/// in the lower-cased target.
pub open spec fn fuzzy_single(query: Seq<char>, target: Seq<char>) -> bool {
    query.len() == 0 || (lowercase_of(query).len() > 0 && is_subsequence(
        lowercase_of(query),
        lowercase_of(target),
    ))
}

/// Whether `target` matches `query`, ignoring case.
pub fn fuzzy_match_single(query: &str, target: &str) -> (b: bool)
    ensures
        b == fuzzy_single(query@, target@),
        b == is_subsequence(lowercase_of(query@), lowercase_of(target@)),
{
    if query.unicode_len() == 0 {
        let ql = to_lowercase(query);
        let tl = to_lowercase(target);
        assert(ql@.len() == 0);
        assert(subseq_from(ql@, tl@, 0, 0));
        return true;
    }
    let ql = to_lowercase(query);
    let qv = chars_of(ql.as_str());
    if qv.len() == 0 {
        return false;
    }
    let tl = to_lowercase(target);
    let tv = chars_of(tl.as_str());
    subsequence_of(&qv, &tv)
}

/// The candidates matching `query`, in their order.
pub open spec fn fuzzy_filter(cands: Seq<Seq<char>>, query: Seq<char>) -> Seq<Seq<char>>
    decreases cands.len(),
{
    if cands.len() == 0 {
        Seq::empty()
    } else {
        let rest = fuzzy_filter(cands.drop_last(), query);
        if fuzzy_single(query, cands.last()) {
            rest.push(cands.last())
        } else {
            rest
        }
    }
}

fn filter_fuzzy(cands: &Vec<String>, query: &str) -> (r: Vec<String>)
    ensures
        views(r@) == fuzzy_filter(views(cands@), query@),
{
    let ghost cs = views(cands@);
    let mut r: Vec<String> = Vec::new();
    let mut i: usize = 0;
    while i < cands.len()
        invariant
            i <= cands@.len(),
            cs == views(cands@),
            views(r@) == fuzzy_filter(cs.take(i as int), query@),
        decreases cands@.len() - i,
    {
        proof {
            assert(cs.take(i + 1).drop_last() =~= cs.take(i as int));
            assert(cs.take(i + 1).last() == cands@[i as int]@);
        }
        if fuzzy_match_single(query, cands[i].as_str()) {
            let ghost before = r@;
            r.push(copy_string(&cands[i]));
            assert(views(r@) =~= views(before).push(cands@[i as int]@));
        }
        i = i + 1;
    }
    assert(cs.take(cands@.len() as int) =~= cs);
    r
}

/// `r` is `cmds` reordered by use at time `now`, best first, ties in the order given.
pub open spec fn ranked_by_usage(
    es: Seq<EntryModel>,
    cmds: Seq<Seq<char>>,
    now: u128,
    r: Seq<Seq<char>>,
) -> bool {
    exists|perm: Seq<usize>|
        #[trigger] is_stable_sort(usage_order(es, cmds, now), cmds.len() as int, perm) && r.len()
            == perm.len() && forall|k: int| 0 <= k < perm.len() ==> #[trigger] r[k] == cmds[perm[k] as int]
}

/// Orders `cmds` by their use recorded in `store`, best first; ties keep their order.
pub fn rank_commands_by_usage(cmds: &Vec<String>, store: &FrecencyStore, now: u128) -> (r: Vec<String>)
    ensures
        ranked_by_usage(store.models(), views(cmds@), now, views(r@)),
{
    let n = cmds.len();
    let perm = store.rank_by_usage(cmds, now);
    let mut r: Vec<String> = Vec::new();
    let mut k: usize = 0;
    while k < n
        invariant
            n == cmds@.len(),
            perm@.len() == n,
            forall|j: int| 0 <= j < perm@.len() ==> #[trigger] perm@[j] < n,
            k <= n,
            r@.len() == k,
            forall|j: int| 0 <= j < k ==> #[trigger] r@[j]@ == cmds@[perm@[j] as int]@,
        decreases n - k,
    {
        r.push(copy_string(&cmds[perm[k]]));
        k = k + 1;
    }
    proof {
        assert(is_stable_sort(usage_order(store.models(), views(cmds@), now), views(cmds@).len() as int, perm@));
        assert(views(r@).len() == perm@.len());
        assert forall|j: int| 0 <= j < perm@.len() implies #[trigger] views(r@)[j] == views(cmds@)[perm@[j] as int] by {}
    }
    r
}

/// `m` is what `fuzzy_match` lists for `files` and `query`.
pub open spec fn fuzzy_matched(files: Seq<Seq<char>>, query: Seq<char>, m: Seq<Seq<char>>) -> bool {
    &&& query.len() == 0 ==> m == files.take(if files.len() < 50 { files.len() as int } else { 50 })
    &&& query.len() > 0 ==> ranked_files(matching_files(files, query), query, m)
}

// ---------------------------------------------------------------------------
// Entries
// ---------------------------------------------------------------------------

/// What the popup completes.
#[derive(Debug, Clone, Copy, PartialEq, Eq, Structural)]
pub enum AutocompleteMode {
    Slash,
    File,
    Agent,
    Resource,
}

/// What an entry stands for.
#[derive(Debug, Clone, Copy, PartialEq, Eq, Structural)]
pub enum EntryKind {
    File,
    Command,
    Agent,
    Resource,
}

/// One line of the popup.
#[derive(Debug, Clone)]
pub struct AutocompleteEntry {
    pub title: String,
    pub subtitle: String,
    pub kind: EntryKind,
}

/// An entry as plain values: title, subtitle, kind.
pub open spec fn entry_view(e: AutocompleteEntry) -> (Seq<char>, Seq<char>, EntryKind) {
    (e.title@, e.subtitle@, e.kind)
}

/// The plain values of a list of entries.
pub open spec fn entry_views(es: Seq<AutocompleteEntry>) -> Seq<(Seq<char>, Seq<char>, EntryKind)> {
    es.map_values(|e: AutocompleteEntry| entry_view(e))
}

/// Command entries: each command with its description.
pub open spec fn command_entries(cmds: Seq<Seq<char>>) -> Seq<(Seq<char>, Seq<char>, EntryKind)> {
    cmds.map_values(|c: Seq<char>| (c, command_help(c), EntryKind::Command))
}

/// Agent entries: each agent with its description.
pub open spec fn agent_entries(agents: Seq<Seq<char>>) -> Seq<(Seq<char>, Seq<char>, EntryKind)> {
    agents.map_values(|a: Seq<char>| (a, agent_help(a), EntryKind::Agent))
}

/// File entries: each path with no description.
pub open spec fn file_entries(files: Seq<Seq<char>>) -> Seq<(Seq<char>, Seq<char>, EntryKind)> {
    files.map_values(|f: Seq<char>| (f, Seq::<char>::empty(), EntryKind::File))
}

fn command_entry_list(cmds: &Vec<String>) -> (r: Vec<AutocompleteEntry>)
    ensures
        entry_views(r@) == command_entries(views(cmds@)),
{
    let mut r: Vec<AutocompleteEntry> = Vec::new();
    let mut i: usize = 0;
    while i < cmds.len()
        invariant
            i <= cmds@.len(),
            entry_views(r@) == command_entries(views(cmds@).take(i as int)),
        decreases cmds@.len() - i,
    {
        let ghost before = r@;
        let e = AutocompleteEntry {
            title: copy_string(&cmds[i]),
            subtitle: String::from_str(command_help_text(cmds[i].as_str())),
            kind: EntryKind::Command,
        };
        r.push(e);
        assert(entry_views(r@) =~= entry_views(before).push(entry_view(e)));
        assert(command_entries(views(cmds@).take(i + 1)) =~= command_entries(
            views(cmds@).take(i as int),
        ).push((cmds@[i as int]@, command_help(cmds@[i as int]@), EntryKind::Command)));
        i = i + 1;
    }
    assert(views(cmds@).take(cmds@.len() as int) =~= views(cmds@));
    r
}

fn agent_entry_list(agents: &Vec<String>) -> (r: Vec<AutocompleteEntry>)
    ensures
        entry_views(r@) == agent_entries(views(agents@)),
{
    let mut r: Vec<AutocompleteEntry> = Vec::new();
    let mut i: usize = 0;
    while i < agents.len()
        invariant
            i <= agents@.len(),
            entry_views(r@) == agent_entries(views(agents@).take(i as int)),
        decreases agents@.len() - i,
    {
        let ghost before = r@;
        let e = AutocompleteEntry {
            title: copy_string(&agents[i]),
            subtitle: String::from_str(agent_help_text(agents[i].as_str())),
            kind: EntryKind::Agent,
        };
        r.push(e);
        assert(entry_views(r@) =~= entry_views(before).push(entry_view(e)));
        assert(agent_entries(views(agents@).take(i + 1)) =~= agent_entries(
            views(agents@).take(i as int),
        ).push((agents@[i as int]@, agent_help(agents@[i as int]@), EntryKind::Agent)));
        i = i + 1;
    }
    assert(views(agents@).take(agents@.len() as int) =~= views(agents@));
    r
}

fn file_entry_list(files: &Vec<String>) -> (r: Vec<AutocompleteEntry>)
    ensures
        entry_views(r@) == file_entries(views(files@)),
{
    let mut r: Vec<AutocompleteEntry> = Vec::new();
    let mut i: usize = 0;
    while i < files.len()
        invariant
            i <= files@.len(),
            entry_views(r@) == file_entries(views(files@).take(i as int)),
        decreases files@.len() - i,
    {
        let ghost before = r@;
        let e = AutocompleteEntry {
            title: copy_string(&files[i]),
            subtitle: String::new(),
            kind: EntryKind::File,
        };
        r.push(e);
        assert(entry_views(r@) =~= entry_views(before).push(entry_view(e)));
        assert(file_entries(views(files@).take(i + 1)) =~= file_entries(
            views(files@).take(i as int),
        ).push((files@[i as int]@, Seq::<char>::empty(), EntryKind::File)));
        i = i + 1;
    }
    assert(views(files@).take(files@.len() as int) =~= views(files@));
    r
}

/// The query typed after byte `pos` of the input: empty when `pos` is not a character
/// boundary of the input.
pub open spec fn query_at(input: Seq<char>, pos: int) -> Seq<char> {
    match tail_from_byte(input, pos) {
        Some(t) => t,
        None => Seq::empty(),
    }
}

fn query_from(input: &str, pos: usize) -> (q: String)
    ensures
        q@ == query_at(input@, pos as int),
{
    match str_tail_from_byte(input, pos) {
        Some(t) => t,
        None => String::new(),
    }
}

/// Whether the character before position `cursor` is white space.
pub fn char_before_is_whitespace(input: &str, cursor: usize) -> (b: bool)
    ensures
        b == (cursor >= 1 && cursor - 1 < input@.len() && is_white_space(input@[cursor - 1])),
{
    if cursor == 0 {
        return false;
    }
    let v = chars_of(input);
    if cursor - 1 < v.len() {
        crate::text::char_is_whitespace(v[cursor - 1])
    } else {
        false
    }
}

/// The text that replaces the typed query when an entry is chosen.
pub open spec fn replacement(mode: AutocompleteMode, title: Seq<char>) -> Seq<char> {
    match mode {
        AutocompleteMode::Slash | AutocompleteMode::Resource => title.push(' '),
        AutocompleteMode::File | AutocompleteMode::Agent => seq!['@'] + title.push(' '),
    }
}

/// Choosing a file inserts an `@` mention of it: `@`, the file's path and a space. When the
/// path is made of reference characters and is not an agent's name, the prompt reads the
/// inserted text as a file chip that starts with `@` and the whole path.
pub proof fn lemma_file_choice_mentions_file(t: Seq<char>)
    requires
        t.len() > 0,
        forall|k: int| 0 <= k < t.len() ==> is_ref(#[trigger] t[k]),
        !is_known_agent(t),
    ensures
        replacement(AutocompleteMode::File, t).len() == t.len() + 2,
        replacement(AutocompleteMode::File, t)[0] == '@',
        replacement(AutocompleteMode::File, t).subrange(1, t.len() + 1int) == t,
        replacement(AutocompleteMode::File, t).last() == ' ',
        segments_of(replacement(AutocompleteMode::File, t))[0] matches SegmentModel::FileChip(c)
            && c.len() >= t.len() + 1 && c.take(t.len() + 1int) == seq!['@'] + t,
{
    let r = replacement(AutocompleteMode::File, t);
    assert(r =~= seq!['@'] + t.push(' '));
    assert(r.subrange(1, t.len() + 1int) =~= t);
    assert(r[1] == t[0]);
    assert(chip_starts(r, 0));
    lemma_ref_run_end(r, 1);
    let end = ref_run_end(r, 1);
    if end < t.len() + 1 {
        assert(r[end] == t[end - 1]);
        assert(is_ref(t[end - 1]));
    }
    assert(end >= t.len() + 1);
    let chip = r.subrange(0, end);
    assert(segments_of(r) == seq![] + seq![crate::input::chip_model(chip)] + crate::input::segments_from(r, end, Seq::empty()));
    assert(segments_of(r)[0] == crate::input::chip_model(chip));
    reveal_strlit("build");
    reveal_strlit("plan");
    reveal_strlit("debug");
    reveal_strlit("review");
    reveal_strlit("test");
    if end == t.len() + 1 {
        assert(chip.drop_first() =~= t);
    } else {
        assert(end == t.len() + 2);
        assert(chip.drop_first() =~= t.push(' '));
        let u = t.push(' ');
        assert(u.last() == ' ');
        assert(u != "build"@ && u != "plan"@ && u != "debug"@ && u != "review"@ && u != "test"@) by {
            assert("build"@.last() != ' ');
            assert("plan"@.last() != ' ');
            assert("debug"@.last() != ' ');
            assert("review"@.last() != ' ');
            assert("test"@.last() != ' ');
        }
    }
    assert(chip.take(t.len() + 1int) =~= seq!['@'] + t);
}

/// Choosing an entry puts its text where the query was typed: in the prompt after the
/// choice, the characters from the trigger on are `@` and the path for a file or an agent,
/// and the command itself for a slash command, each followed by a space.
pub proof fn lemma_choice_lands_at_trigger(v: Seq<char>, a: int, b: int, mode: AutocompleteMode, t: Seq<char>)
    requires
        0 <= a <= b <= v.len(),
    ensures
        ({
            let w = v.take(a) + replacement(mode, t) + v.skip(b);
            match mode {
                AutocompleteMode::File | AutocompleteMode::Agent => w.subrange(a, a + t.len() + 2)
                    == seq!['@'] + t + seq![' '],
                _ => w.subrange(a, a + t.len() + 1) == t + seq![' '],
            }
        }),
{
    let w = v.take(a) + replacement(mode, t) + v.skip(b);
    match mode {
        AutocompleteMode::File | AutocompleteMode::Agent => {
            assert(w.subrange(a, a + t.len() + 2) =~= seq!['@'] + t + seq![' ']);
        },
        _ => {
            assert(w.subrange(a, a + t.len() + 1) =~= t + seq![' ']);
        },
    }
}

// ---------------------------------------------------------------------------
// The popup
// ---------------------------------------------------------------------------

/// The completion popup.
pub struct AutocompleteState {
    pub open: bool,
    pub mode: AutocompleteMode,
    pub entries: Vec<AutocompleteEntry>,
    pub idx: usize,
    pub scroll: usize,
    pub trigger_pos: usize,
    pub anchor_x: u16,
    pub anchor_y: u16,
    pub anchor_width: u16,
    pub max_items: usize,
    pub mouse_hover: Option<usize>,
}

/// `s` was opened in `mode` for a trigger at `trigger`, from `o`: nothing listed or selected,
/// the anchor and size unchanged.
pub open spec fn opened_from(
    o: AutocompleteState,
    s: AutocompleteState,
    mode: AutocompleteMode,
    trigger: usize,
) -> bool {
    &&& s.open
    &&& s.mode == mode
    &&& s.trigger_pos == trigger
    &&& s.idx == 0 && s.scroll == 0
    &&& s.entries@.len() == 0
    &&& s.mouse_hover is None
    &&& s.anchor_x == o.anchor_x && s.anchor_y == o.anchor_y && s.anchor_width == o.anchor_width
    &&& s.max_items == o.max_items
}

/// `s` is `o` closed.
pub open spec fn closed_from(o: AutocompleteState, s: AutocompleteState) -> bool {
    &&& !s.open
    &&& s.mouse_hover is None
    &&& s.mode == o.mode && s.entries == o.entries && s.idx == o.idx && s.scroll == o.scroll
    &&& s.trigger_pos == o.trigger_pos
    &&& s.anchor_x == o.anchor_x && s.anchor_y == o.anchor_y && s.anchor_width == o.anchor_width
    &&& s.max_items == o.max_items
}

/// The entries listed for `input` in `mode` with trigger at `trigger`, given the scanned
/// files, the use records (when given) and the time.
pub open spec fn listed_entries(
    mode: AutocompleteMode,
    trigger: usize,
    input: Seq<char>,
    files: Seq<Seq<char>>,
    usage: Option<Seq<EntryModel>>,
    now: u128,
    r: Seq<(Seq<char>, Seq<char>, EntryKind)>,
) -> bool {
    match mode {
        AutocompleteMode::Slash => {
            let q = query_at(input, trigger as int);
            let f = fuzzy_filter(slash_command_list(), q);
            if q.len() == 0 && usage is Some {
                exists|ranked: Seq<Seq<char>>|
                    #[trigger] ranked_by_usage(usage->0, f, now, ranked) && r == command_entries(
                        ranked,
                    )
            } else {
                r == command_entries(f)
            }
        },
        AutocompleteMode::File => {
            exists|m: Seq<Seq<char>>|
                #[trigger] fuzzy_matched(files, query_at(input, trigger + 1), m) && r
                    == file_entries(m)
        },
        AutocompleteMode::Agent => {
            r == agent_entries(fuzzy_filter(known_agent_list(), query_at(input, trigger + 1)))
        },
        AutocompleteMode::Resource => r.len() == 0,
    }
}

/// `s` is `o` with its entries rebuilt (see `listed_entries`), the selection reset.
pub open spec fn rebuilt_from(
    o: AutocompleteState,
    s: AutocompleteState,
    input: Seq<char>,
    files: Seq<Seq<char>>,
    usage: Option<Seq<EntryModel>>,
    now: u128,
) -> bool {
    &&& listed_entries(o.mode, o.trigger_pos, input, files, usage, now, entry_views(s.entries@))
    &&& s.idx == 0 && s.scroll == 0 && s.mouse_hover is None
    &&& s.open == o.open && s.mode == o.mode && s.trigger_pos == o.trigger_pos
    &&& s.anchor_x == o.anchor_x && s.anchor_y == o.anchor_y && s.anchor_width == o.anchor_width
    &&& s.max_items == o.max_items
}

/// The use records of an optional store.
pub open spec fn usage_of(frecency: Option<&FrecencyStore>) -> Option<Seq<EntryModel>> {
    match frecency {
        Some(f) => Some(f.models()),
        None => None,
    }
}

/// The mode after `m` in the cycle slash, file, agent, resource.
pub open spec fn next_mode(m: AutocompleteMode) -> AutocompleteMode {
    match m {
        AutocompleteMode::Slash => AutocompleteMode::File,
        AutocompleteMode::File => AutocompleteMode::Agent,
        AutocompleteMode::Agent => AutocompleteMode::Resource,
        AutocompleteMode::Resource => AutocompleteMode::Slash,
    }
}

/// Cycling the mode four times comes back to where it started, through every mode.
pub proof fn lemma_mode_cycle(m: AutocompleteMode)
    ensures
        next_mode(next_mode(next_mode(next_mode(m)))) == m,
        m != next_mode(m) && m != next_mode(next_mode(m)) && m != next_mode(next_mode(next_mode(m))),
{
}

/// In slash mode, with a typed query or without use records, a rebuild lists the commands that
/// match the query in the order of the command table, whatever the time, each with its help text,
/// and puts the selection back at the top.
pub proof fn lemma_slash_rebuild_in_table_order(
    o: AutocompleteState,
    s: AutocompleteState,
    input: Seq<char>,
    files: Seq<Seq<char>>,
    usage: Option<Seq<EntryModel>>,
    t: u128,
)
    requires
        o.mode == AutocompleteMode::Slash,
        query_at(input, o.trigger_pos as int).len() > 0 || usage is None,
        rebuilt_from(o, s, input, files, usage, t),
    ensures
        entry_views(s.entries@) == command_entries(
            fuzzy_filter(slash_command_list(), query_at(input, o.trigger_pos as int)),
        ),
        forall|t2: u128| rebuilt_from(o, s, input, files, usage, t2),
        s.idx == 0 && s.scroll == 0 && s.mouse_hover is None,
        s.mode == o.mode && s.open == o.open && s.trigger_pos == o.trigger_pos,
{
}

impl AutocompleteState {
    /// A closed popup in slash mode, anchored at the origin, 40 wide, showing up to 10 rows.
    pub fn new() -> (s: Self)
        ensures
            !s.open,
            s.mode == AutocompleteMode::Slash,
            s.entries@.len() == 0,
            s.idx == 0 && s.scroll == 0 && s.trigger_pos == 0,
            s.anchor_x == 0 && s.anchor_y == 0 && s.anchor_width == 40,
            s.max_items == 10,
            s.mouse_hover is None,
    {
        AutocompleteState {
            open: false,
            mode: AutocompleteMode::Slash,
            entries: Vec::new(),
            idx: 0,
            scroll: 0,
            trigger_pos: 0,
            anchor_x: 0,
            anchor_y: 0,
            anchor_width: 40,
            max_items: 10,
            mouse_hover: None,
        }
    }

    /// Opens the popup in `mode` for a trigger at character `trigger_pos`.
    pub fn open(&mut self, mode: AutocompleteMode, trigger_pos: usize)
        ensures
            opened_from(*old(self), *final(self), mode, trigger_pos),
    {
        self.open = true;
        self.mode = mode;
        self.trigger_pos = trigger_pos;
        self.idx = 0;
        self.scroll = 0;
        self.entries = Vec::new();
        self.mouse_hover = None;
    }

    /// Closes the popup.
    pub fn close(&mut self)
        ensures
            closed_from(*old(self), *final(self)),
    {
        self.open = false;
        self.mouse_hover = None;
    }

    /// Places the popup.
    pub fn set_anchor(&mut self, anchor_x: u16, anchor_y: u16, anchor_width: u16)
        ensures
            final(self).anchor_x == anchor_x,
            final(self).anchor_y == anchor_y,
            final(self).anchor_width == anchor_width,
            final(self).open == old(self).open && final(self).mode == old(self).mode,
            final(self).entries == old(self).entries && final(self).idx == old(self).idx,
    {
        self.anchor_x = anchor_x;
        self.anchor_y = anchor_y;
        self.anchor_width = anchor_width;
    }

    /// Moves to the next mode (slash, file, agent, resource, then slash again) and resets
    /// the selection.
    pub fn cycle_mode(&mut self)
        ensures
            final(self).mode == next_mode(old(self).mode),
            final(self).idx == 0 && final(self).scroll == 0 && final(self).mouse_hover is None,
            final(self).open == old(self).open && final(self).entries == old(self).entries,
            final(self).trigger_pos == old(self).trigger_pos,
    {
        self.mode = match self.mode {
            AutocompleteMode::Slash => AutocompleteMode::File,
            AutocompleteMode::File => AutocompleteMode::Agent,
            AutocompleteMode::Agent => AutocompleteMode::Resource,
            AutocompleteMode::Resource => AutocompleteMode::Slash,
        };
        self.idx = 0;
        self.scroll = 0;
        self.mouse_hover = None;
    }

    /// Records a chosen completion in the use records.
    pub fn record_selection(&mut self, text: &str, frecency: &mut FrecencyStore)
        requires
            old(frecency).wf(),
            old(frecency).can_record(),
        ensures
            *final(self) == *old(self),
            final(frecency).wf(),
            is_blank(text@) ==> final(frecency).models() == old(frecency).models(),
            !is_blank(text@) ==> exists|t: u128|
                final(frecency).models() == recorded(old(frecency).models(), trimmed(text@), t),
    {
        frecency.record(text);
    }

    /// Rebuilds the entries for `input` at time `now`: slash commands matching the query
    /// (ranked by use when the query is empty and use records are given), files matching the
    /// query among `files`, agents matching the query, or nothing for resources.
    pub fn rebuild_entries_at(
        &mut self,
        input: &str,
        files: &Vec<String>,
        frecency: Option<&FrecencyStore>,
        now: u128,
    )
        requires
            old(self).mode == AutocompleteMode::File || old(self).mode == AutocompleteMode::Agent
                ==> old(self).trigger_pos < usize::MAX,
        ensures
            rebuilt_from(*old(self), *final(self), input@, views(files@), usage_of(frecency), now),
    {
        match self.mode {
            AutocompleteMode::Slash => {
                let q = query_from(input, self.trigger_pos);
                let cmds = slash_commands();
                let filtered = filter_fuzzy(&cmds, q.as_str());
                if q.unicode_len() == 0 {
                    match frecency {
                        Some(store) => {
                            let ranked = rank_commands_by_usage(&filtered, store, now);
                            self.entries = command_entry_list(&ranked);
                            assert(ranked_by_usage(
                                store.models(),
                                fuzzy_filter(slash_command_list(), q@),
                                now,
                                views(ranked@),
                            ));
                            assert(usage_of(frecency)->0 == store.models());
                            assert(q@ == query_at(input@, old(self).trigger_pos as int));
                            assert(ranked_by_usage(usage_of(frecency)->0, fuzzy_filter(slash_command_list(), query_at(input@, old(self).trigger_pos as int)), now, views(ranked@)));
                            assert(listed_entries(old(self).mode, old(self).trigger_pos, input@, views(files@), usage_of(frecency), now, entry_views(self.entries@)));
                        },
                        None => {
                            self.entries = command_entry_list(&filtered);
                            assert(listed_entries(old(self).mode, old(self).trigger_pos, input@, views(files@), usage_of(frecency), now, entry_views(self.entries@)));
                        },
                    }
                } else {
                    self.entries = command_entry_list(&filtered);
                    assert(listed_entries(old(self).mode, old(self).trigger_pos, input@, views(files@), usage_of(frecency), now, entry_views(self.entries@)));
                }
            },
            AutocompleteMode::File => {
                let q = query_from(input, self.trigger_pos + 1);
                let matched = fuzzy_match(files, q.as_str());
                self.entries = file_entry_list(&matched);
                assert(fuzzy_matched(views(files@), q@, views(matched@)));
                assert(listed_entries(old(self).mode, old(self).trigger_pos, input@, views(files@), usage_of(frecency), now, entry_views(self.entries@)));
            },
            AutocompleteMode::Agent => {
                let q = query_from(input, self.trigger_pos + 1);
                let agents = known_agents();
                let filtered = filter_fuzzy(&agents, q.as_str());
                self.entries = agent_entry_list(&filtered);
                assert(listed_entries(old(self).mode, old(self).trigger_pos, input@, views(files@), usage_of(frecency), now, entry_views(self.entries@)));
            },
            AutocompleteMode::Resource => {
                self.entries = Vec::new();
            },
        }
        self.idx = 0;
        self.scroll = 0;
        self.mouse_hover = None;
        assert(listed_entries(old(self).mode, old(self).trigger_pos, input@, views(files@), usage_of(frecency), now, entry_views(self.entries@)));
    }

    /// Rebuilds the entries for `input` now (see `rebuild_entries_at`).
    pub fn rebuild_entries(&mut self, input: &str, files: &Vec<String>, frecency: Option<&FrecencyStore>)
        requires
            old(self).mode == AutocompleteMode::File || old(self).mode == AutocompleteMode::Agent
                ==> old(self).trigger_pos < usize::MAX,
        ensures
            exists|t: u128|
                rebuilt_from(*old(self), *final(self), input@, views(files@), usage_of(frecency), t),
    {
        let now = now_millis();
        self.rebuild_entries_at(input, files, frecency, now);
    }

    /// Rebuilds the entries for `input` without use records.
    pub fn rebuild_entries_legacy(&mut self, input: &str, files: &Vec<String>)
        requires
            old(self).mode == AutocompleteMode::File || old(self).mode == AutocompleteMode::Agent
                ==> old(self).trigger_pos < usize::MAX,
        ensures
            rebuilt_from(*old(self), *final(self), input@, views(files@), None, 0),
    {
        self.rebuild_entries_at(input, files, None, 0);
    }

    /// Selects the previous entry, stopping at the first.
    pub fn cursor_up(&mut self)
        ensures
            final(self).idx == if old(self).idx > 0 { (old(self).idx - 1) as usize } else { 0 },
            final(self).entries == old(self).entries && final(self).open == old(self).open,
            final(self).mouse_hover == old(self).mouse_hover,
    {
        if self.idx > 0 {
            self.idx = self.idx - 1;
        }
    }

    /// Selects the next entry, stopping at the last.
    pub fn cursor_down(&mut self)
        ensures
            final(self).idx == if old(self).idx + 1 < old(self).entries@.len() {
                (old(self).idx + 1) as usize
            } else {
                old(self).idx
            },
            final(self).entries == old(self).entries && final(self).open == old(self).open,
            final(self).mouse_hover == old(self).mouse_hover,
    {
        if self.entries.len() > 0 && self.idx < self.entries.len() - 1 {
            self.idx = self.idx + 1;
        }
    }

    /// Tracks the mouse at row `y` over a popup whose first row is `popup_top`: the row under
    /// it, if it holds an entry, is hovered and selected.
    pub fn on_mouse_move(&mut self, y: u16, popup_top: u16)
        ensures
            y < popup_top ==> final(self).mouse_hover is None && final(self).idx == old(self).idx,
            y >= popup_top && y - popup_top < old(self).entries@.len() ==> final(self).mouse_hover
                == Some((y - popup_top) as usize) && final(self).idx == (y - popup_top) as usize,
            y >= popup_top && y - popup_top >= old(self).entries@.len() ==> final(self).mouse_hover
                is None && final(self).idx == old(self).idx,
            final(self).entries == old(self).entries && final(self).open == old(self).open,
    {
        if y < popup_top {
            self.mouse_hover = None;
            return;
        }
        let offset = (y - popup_top) as usize;
        if offset < self.entries.len() {
            self.mouse_hover = Some(offset);
            self.idx = offset;
        } else {
            self.mouse_hover = None;
        }
    }

    /// The title of the hovered entry, if any.
    pub fn on_click(&self) -> (r: Option<String>)
        ensures
            match self.mouse_hover {
                Some(i) => if i < self.entries@.len() {
                    r matches Some(t) && t@ == self.entries@[i as int].title@
                } else {
                    r is None
                },
                None => r is None,
            },
    {
        match self.mouse_hover {
            Some(i) => {
                if i < self.entries.len() {
                    Some(copy_string(&self.entries[i].title))
                } else {
                    None
                }
            },
            None => None,
        }
    }

    /// Puts the selected entry into the prompt in place of the typed query (from the trigger
    /// to the cursor), moves the cursor after it, and closes the popup. With nothing listed
    /// the popup just closes.
    pub fn select(&mut self, input: &mut InputState)
        requires
            old(self).entries@.len() > 0 ==> {
                &&& old(self).idx < old(self).entries@.len()
                &&& clamped(old(self).trigger_pos, old(input).value@.len()) <= clamped(
                    old(input).cursor,
                    old(input).value@.len(),
                )
                &&& old(self).trigger_pos + replacement(
                    old(self).mode,
                    old(self).entries@[old(self).idx as int].title@,
                ).len() <= usize::MAX
            },
        ensures
            closed_from(*old(self), *final(self)),
            old(self).entries@.len() == 0 ==> *final(input) == *old(input),
            old(self).entries@.len() > 0 ==> {
                let rep = replacement(old(self).mode, old(self).entries@[old(self).idx as int].title@);
                let v = old(input).value@;
                &&& final(input).value@ == v.take(clamped(old(self).trigger_pos, v.len())) + rep
                    + v.skip(clamped(old(input).cursor, v.len()))
                &&& final(input).cursor == old(self).trigger_pos + rep.len()
                &&& final(input).prompt == old(input).prompt
                &&& final(input).history == old(input).history
                &&& final(input).history_idx == old(input).history_idx
            },
    {
        if self.entries.len() == 0 {
            self.close();
            return;
        }
        let title = copy_string(&self.entries[self.idx].title);
        let mut rep: Vec<char> = Vec::new();
        match self.mode {
            AutocompleteMode::File | AutocompleteMode::Agent => {
                rep.push('@');
            },
            _ => {},
        }
        let tv = chars_of(title.as_str());
        let mut i: usize = 0;
        let ghost start = rep@;
        while i < tv.len()
            invariant
                i <= tv@.len(),
                rep@ == start + tv@.take(i as int),
            decreases tv@.len() - i,
        {
            rep.push(tv[i]);
            i = i + 1;
            assert(rep@ =~= start + tv@.take(i as int));
        }
        rep.push(' ');
        assert(tv@.take(tv@.len() as int) =~= tv@);
        assert(rep@ =~= replacement(self.mode, title@)) by {
            match self.mode {
                AutocompleteMode::File | AutocompleteMode::Agent => {
                    assert(start =~= seq!['@']);
                },
                _ => {
                    assert(start =~= Seq::<char>::empty());
                },
            }
        }
        let v = chars_of(input.value.as_str());
        let a = if self.trigger_pos < v.len() {
            self.trigger_pos
        } else {
            v.len()
        };
        let b = if input.cursor < v.len() {
            input.cursor
        } else {
            v.len()
        };
        let nv = splice_chars(&v, a, b, &rep);
        input.value = string_of(&nv);
        input.cursor = self.trigger_pos + rep.len();
        self.close();
    }

    /// Reacts to a typed character `c` that put the cursor at `cursor`: a space closes the
    /// popup; `/` as the first character opens slash completion; `@` at the start or after
    /// white space opens file completion at its position.
    pub fn on_char_insert(&mut self, c: char, cursor: usize, input: &str)
        requires
            c == '@' ==> cursor >= 1,
        ensures
            c == ' ' ==> closed_from(*old(self), *final(self)),
            c == '/' && cursor == 1 ==> opened_from(
                *old(self),
                *final(self),
                AutocompleteMode::Slash,
                0,
            ),
            c == '@' && (cursor == 1 || (cursor >= 2 && cursor - 2 < input@.len() && is_white_space(
                input@[cursor - 2],
            ))) ==> opened_from(*old(self), *final(self), AutocompleteMode::File, (cursor - 1) as usize),
            c == '@' && !(cursor == 1 || (cursor >= 2 && cursor - 2 < input@.len()
                && is_white_space(input@[cursor - 2]))) ==> *final(self) == *old(self),
            c != ' ' && c != '@' && !(c == '/' && cursor == 1) ==> *final(self) == *old(self),
    {
        if c == ' ' {
            self.close();
            return;
        }
        if c == '/' && cursor == 1 {
            self.open(AutocompleteMode::Slash, 0);
            return;
        }
        if c == '@' && (cursor == 1 || char_before_is_whitespace(input, cursor - 1)) {
            self.open(AutocompleteMode::File, cursor - 1);
        }
    }

    /// Closes the popup when a backspace moved the cursor to or before the trigger.
    pub fn on_backspace(&mut self, cursor: usize)
        ensures
            old(self).open && cursor <= old(self).trigger_pos ==> closed_from(*old(self), *final(self)),
            !(old(self).open && cursor <= old(self).trigger_pos) ==> *final(self) == *old(self),
    {
        if self.open && cursor <= self.trigger_pos {
            self.close();
        }
    }
}

} // verus!
