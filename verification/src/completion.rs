//! Completion for the line editor: which kind of word is being typed (a slash command, a
//! file path after `/export`, a model after `/model`, a session after `/session switch`),
//! the typed part, where it starts, and the matching candidates. Positions are byte offsets
//! into the line, as the line editor gives them. Listing files is left to the caller.
use vstd::prelude::*;
use crate::text::{views, byte_len, byte_to_index, chars_of, copy_string, has_prefix, head_at, head_at_byte, str_byte_len, str_starts_with, str_eq, string_of_range};

verus! {

/// How reading a line ended.
#[derive(Debug, Clone, PartialEq, Eq)]
pub enum ReadOutcome {
    Submit(String),
    Cancel,
    Exit,
}

/// The kind of word being completed.
#[derive(Debug, Clone, Copy, PartialEq, Eq, Structural)]
pub enum CompletionContext {
    /// A slash command name (`/h` to `/help`).
    CommandName,
    /// A file path after `/export `.
    FilePath,
    /// A model name after `/model `.
    ModelName,
    /// A session id after `/session switch `.
    SessionId,
    /// Nothing to complete.
    Other,
}

/// `s` with every space turned into a tab.
pub open spec fn tabbed(s: Seq<char>) -> Seq<char> {
    s.map_values(|c: char| if c == ' ' { '\t' } else { c })
}

fn tabbed_string(s: &str) -> (r: String)
    ensures
        r@ == tabbed(s@),
{
    let v = chars_of(s);
    let mut r = String::new();
    let mut i: usize = 0;
    while i < v.len()
        invariant
            i <= v@.len(),
            v@ == s@,
            r@ == tabbed(v@.take(i as int)),
        decreases v@.len() - i,
    {
        crate::text::push_char(&mut r, if v[i] == ' ' { '\t' } else { v[i] });
        i = i + 1;
        assert(r@ =~= tabbed(v@.take(i as int)));
    }
    assert(v@.take(v@.len() as int) =~= v@);
    r
}

/// `p` begins with `cmd` or with `cmd` with its spaces turned into tabs.
pub open spec fn after_command(p: Seq<char>, cmd: Seq<char>) -> Option<Seq<char>> {
    if has_prefix(p, cmd) {
        Some(p.skip(cmd.len() as int))
    } else if has_prefix(p, tabbed(cmd)) {
        Some(p.skip(cmd.len() as int))
    } else {
        None
    }
}

/// The kind of word being completed at byte `pos` of `line`.
pub open spec fn context_of(line: Seq<char>, pos: int) -> CompletionContext {
    let p = head_at(line, pos);
    if has_prefix(p, "/export "@) || has_prefix(p, "/export\t"@) {
        CompletionContext::FilePath
    } else if has_prefix(p, "/model "@) || has_prefix(p, "/model\t"@) {
        CompletionContext::ModelName
    } else if has_prefix(p, "/session switch "@) || has_prefix(p, "/session switch\t"@) {
        CompletionContext::SessionId
    } else if p.len() > 0 && p[0] == '/' {
        CompletionContext::CommandName
    } else {
        CompletionContext::Other
    }
}

proof fn lemma_slash_prefix(s: Seq<char>)
    ensures
        has_prefix(s, "/"@) <==> (s.len() > 0 && s[0] == '/'),
{
    reveal_strlit("/");
    if s.len() > 0 && s[0] == '/' {
        assert(s.take(1) =~= "/"@);
    }
    if has_prefix(s, "/"@) {
        assert(s.take(1)[0] == s[0]);
    }
}

/// The kind of word being completed at byte `pos` of `line` (see `context_of`).
pub fn detect_context(line: &str, pos: usize) -> (c: CompletionContext)
    requires
        byte_to_index(line@, pos as int) is Some,
    ensures
        c == context_of(line@, pos as int),
{
    let prefix = head_at_byte(line, pos);
    let p = prefix.as_str();
    proof {
        lemma_slash_prefix(p@);
    }
    if str_starts_with(p, "/export ") || str_starts_with(p, "/export\t") {
        CompletionContext::FilePath
    } else if str_starts_with(p, "/model ") || str_starts_with(p, "/model\t") {
        CompletionContext::ModelName
    } else if str_starts_with(p, "/session switch ") || str_starts_with(p, "/session switch\t") {
        CompletionContext::SessionId
    } else if str_starts_with(p, "/") {
        CompletionContext::CommandName
    } else {
        CompletionContext::Other
    }
}

/// The typed part of a path after `/export ` (empty without that command).
pub open spec fn partial_path(line: Seq<char>, pos: int) -> Seq<char> {
    match after_command(head_at(line, pos), "/export "@) {
        Some(rest) => rest,
        None => Seq::empty(),
    }
}

fn strip_command(p: &str, cmd: &str) -> (r: Option<String>)
    ensures
        match r {
            Some(rest) => after_command(p@, cmd@) == Some(rest@),
            None => after_command(p@, cmd@) is None,
        },
{
    let t = tabbed_string(cmd);
    if str_starts_with(p, cmd) || str_starts_with(p, t.as_str()) {
        let v = chars_of(p);
        let n = cmd.unicode_len();
        let rest = string_of_range(&v, n, v.len());
        assert(v@.subrange(n as int, v@.len() as int) =~= p@.skip(cmd@.len() as int));
        Some(rest)
    } else {
        None
    }
}

/// The typed part of a path after `/export ` at byte `pos` of `line`.
pub fn extract_partial_path(line: &str, pos: usize) -> (r: String)
    requires
        byte_to_index(line@, pos as int) is Some,
    ensures
        r@ == partial_path(line@, pos as int),
{
    let before = head_at_byte(line, pos);
    match strip_command(before.as_str(), "/export ") {
        Some(rest) => rest,
        None => String::new(),
    }
}

/// Where the typed path starts: `pos` less the typed path's length in bytes.
pub open spec fn path_start(line: Seq<char>, pos: int) -> int {
    match after_command(head_at(line, pos), "/export "@) {
        Some(rest) => if pos >= byte_len(rest) { pos - byte_len(rest) } else { pos },
        None => pos,
    }
}

/// The typed word after `cmd` (or its tabbed form) before byte `pos`; empty without `cmd`.
pub open spec fn word_after(line: Seq<char>, pos: int, cmd: Seq<char>) -> Seq<char> {
    match after_command(head_at(line, pos), cmd) {
        Some(rest) => rest,
        None => Seq::empty(),
    }
}

/// Where the typed word after `cmd` starts: the byte after `cmd`, or `pos` without it.
pub open spec fn token_start(line: Seq<char>, pos: int, cmd: Seq<char>) -> int {
    if after_command(head_at(line, pos), cmd) is Some && byte_len(cmd) <= pos {
        byte_len(cmd) as int
    } else {
        pos
    }
}

/// Where the typed path starts: the byte after `/export `, or `pos` without that command.
pub fn find_path_start(line: &str, pos: usize) -> (r: usize)
    requires
        byte_to_index(line@, pos as int) is Some,
    ensures
        r == path_start(line@, pos as int),
{
    let before = head_at_byte(line, pos);
    match strip_command(before.as_str(), "/export ") {
        Some(rest) => {
            let n = str_byte_len(rest.as_str());
            if pos >= n {
                pos - n
            } else {
                pos
            }
        },
        None => pos,
    }
}

/// The typed word after `command_prefix` (or its tabbed form) at byte `pos` of `line`;
/// empty without that command.
pub fn extract_after_command(line: &str, pos: usize, command_prefix: &str) -> (r: String)
    requires
        byte_to_index(line@, pos as int) is Some,
    ensures
        r@ == word_after(line@, pos as int, command_prefix@),
{
    let before = head_at_byte(line, pos);
    match strip_command(before.as_str(), command_prefix) {
        Some(rest) => rest,
        None => String::new(),
    }
}

/// Where the typed word after `command_prefix` starts: the byte after the command, or `pos`
/// without it.
pub fn find_token_start(line: &str, pos: usize, command_prefix: &str) -> (r: usize)
    requires
        byte_to_index(line@, pos as int) is Some,
    ensures
        r == token_start(line@, pos as int, command_prefix@),
{
    let before = head_at_byte(line, pos);
    match strip_command(before.as_str(), command_prefix) {
        Some(_) => {
            let n = str_byte_len(command_prefix);
            if n <= pos {
                n
            } else {
                pos
            }
        },
        None => pos,
    }
}

/// The typed slash command: the whole line, when the cursor is at its end and it starts
/// with `/`.
pub open spec fn slash_prefix(line: Seq<char>, pos: int) -> Option<Seq<char>> {
    if pos == byte_len(line) && line.len() > 0 && line[0] == '/' {
        Some(line)
    } else {
        None
    }
}

/// The typed slash command at byte `pos` of `line` (see `slash_prefix`).
pub fn slash_command_prefix(line: &str, pos: usize) -> (r: Option<&str>)
    ensures
        match r {
            Some(p) => slash_prefix(line@, pos as int) == Some(p@),
            None => slash_prefix(line@, pos as int) is None,
        },
{
    if pos != str_byte_len(line) {
        return None;
    }
    proof {
        lemma_slash_prefix(line@);
    }
    if !str_starts_with(line, "/") {
        return None;
    }
    Some(line)
}

/// The candidates that start with `/`, each once, in order of first occurrence.
pub open spec fn normalized(cs: Seq<Seq<char>>) -> Seq<Seq<char>>
    decreases cs.len(),
{
    if cs.len() == 0 {
        Seq::empty()
    } else {
        let r = normalized(cs.drop_last());
        let c = cs.last();
        if c.len() > 0 && c[0] == '/' && !r.contains(c) {
            r.push(c)
        } else {
            r
        }
    }
}

/// Keeps the candidates that start with `/`, dropping repeats.
pub fn normalize_completions(completions: Vec<String>) -> (r: Vec<String>)
    ensures
        views(r@) == normalized(views(completions@)),
{
    let ghost cs = views(completions@);
    let mut r: Vec<String> = Vec::new();
    let mut i: usize = 0;
    while i < completions.len()
        invariant
            i <= completions@.len(),
            cs == views(completions@),
            views(r@) == normalized(cs.take(i as int)),
        decreases completions@.len() - i,
    {
        assert(cs.take(i + 1).drop_last() =~= cs.take(i as int));
        assert(cs.take(i + 1).last() == completions@[i as int]@);
        let c = &completions[i];
        let mut seen = false;
        let mut j: usize = 0;
        while j < r.len()
            invariant
                j <= r@.len(),
                seen == exists|k: int| 0 <= k < j && #[trigger] views(r@)[k] == c@,
            decreases r@.len() - j,
        {
            assert(views(r@)[j as int] == r@[j as int]@);
            if str_eq(r[j].as_str(), c.as_str()) {
                seen = true;
            }
            j = j + 1;
        }
        proof {
            lemma_slash_prefix(c@);
            if views(r@).contains(c@) {
                let k = choose|k: int| 0 <= k < views(r@).len() && views(r@)[k] == c@;
                assert(views(r@)[k] == c@);
            }
            assert(seen <==> views(r@).contains(c@));
        }
        if str_starts_with(c.as_str(), "/") && !seen {
            let ghost before = r@;
            r.push(copy_string(c));
            assert(views(r@) =~= views(before).push(c@));
        }
        i = i + 1;
    }
    assert(cs.take(completions@.len() as int) =~= cs);
    r
}

/// The first `limit` candidates starting with `prefix`, in order.
pub open spec fn starting_with(cs: Seq<Seq<char>>, prefix: Seq<char>, limit: nat) -> Seq<Seq<char>>
    decreases cs.len(),
{
    if cs.len() == 0 {
        Seq::empty()
    } else {
        let r = starting_with(cs.drop_last(), prefix, limit);
        if has_prefix(cs.last(), prefix) && r.len() < limit {
            r.push(cs.last())
        } else {
            r
        }
    }
}

fn filter_starting_with(cs: &Vec<String>, prefix: &str, limit: usize) -> (r: Vec<String>)
    ensures
        views(r@) == starting_with(views(cs@), prefix@, limit as nat),
{
    let ghost s = views(cs@);
    let mut r: Vec<String> = Vec::new();
    let mut i: usize = 0;
    while i < cs.len()
        invariant
            i <= cs@.len(),
            s == views(cs@),
            views(r@) == starting_with(s.take(i as int), prefix@, limit as nat),
        decreases cs@.len() - i,
    {
        assert(s.take(i + 1).drop_last() =~= s.take(i as int));
        assert(s.take(i + 1).last() == cs@[i as int]@);
        if str_starts_with(cs[i].as_str(), prefix) && r.len() < limit {
            let ghost before = r@;
            r.push(copy_string(&cs[i]));
            assert(views(r@) =~= views(before).push(cs@[i as int]@));
        }
        i = i + 1;
    }
    assert(s.take(cs@.len() as int) =~= s);
    r
}

/// What completing asks for: the candidates and where they replace the line, or a listing
/// of files for a typed path (which the caller does) to replace from `start`.
#[derive(Debug)]
pub enum Completion {
    Ready(usize, Vec<String>),
    Files { start: usize, partial: String },
}

/// The line editor's completion state: the slash commands, models and sessions it offers,
/// and the line as last drawn.
#[derive(Debug)]
pub struct SlashCommandHelper {
    pub completions: Vec<String>,
    pub current_line: String,
    pub available_models: Vec<String>,
    pub available_sessions: Vec<String>,
}

impl SlashCommandHelper {
    /// A helper offering `completions` (normalized), no models or sessions.
    pub fn new(completions: Vec<String>) -> (h: Self)
        ensures
            views(h.completions@) == normalized(views(completions@)),
            h.current_line@.len() == 0,
            h.available_models@.len() == 0 && h.available_sessions@.len() == 0,
    {
        SlashCommandHelper {
            completions: normalize_completions(completions),
            current_line: String::new(),
            available_models: Vec::new(),
            available_sessions: Vec::new(),
        }
    }

    /// Forgets the line.
    pub fn reset_current_line(&mut self)
        ensures
            final(self).current_line@.len() == 0,
            final(self).completions == old(self).completions,
    {
        self.current_line = String::new();
    }

    /// The line as last drawn.
    pub fn current_line(&self) -> (r: String)
        ensures
            r@ == self.current_line@,
    {
        copy_string(&self.current_line)
    }

    /// Remembers the line being drawn.
    pub fn set_current_line(&mut self, line: &str)
        ensures
            final(self).current_line@ == line@,
            final(self).completions == old(self).completions,
    {
        self.current_line = String::from_str(line);
    }

    /// Replaces the offered slash commands (normalized).
    pub fn set_completions(&mut self, completions: Vec<String>)
        ensures
            views(final(self).completions@) == normalized(views(completions@)),
            final(self).current_line == old(self).current_line,
    {
        self.completions = normalize_completions(completions);
    }

    /// Replaces the offered models.
    pub fn set_models(&mut self, models: Vec<String>)
        ensures
            final(self).available_models == models,
            final(self).completions == old(self).completions,
    {
        self.available_models = models;
    }

    /// Replaces the offered sessions.
    pub fn set_sessions(&mut self, sessions: Vec<String>)
        ensures
            final(self).available_sessions == sessions,
            final(self).completions == old(self).completions,
    {
        self.available_sessions = sessions;
    }

    /// Draws `line` unchanged, remembering it.
    pub fn highlight<'l>(&mut self, line: &'l str, pos: usize) -> (r: &'l str)
        ensures
            r@ == line@,
            final(self).current_line@ == line@,
    {
        self.set_current_line(line);
        line
    }

    /// Completes the word at byte `pos` of `line`: for `/model ` or `/session switch `, up
    /// to 20 models or sessions starting with the typed word, from its start; for a slash
    /// command at the end of the line, the commands starting with it, from the line's
    /// start; for `/export `, a request to list files; otherwise nothing at `pos`.
    pub fn complete(&self, line: &str, pos: usize) -> (r: Completion)
        requires
            byte_to_index(line@, pos as int) is Some,
        ensures
            match context_of(line@, pos as int) {
                CompletionContext::FilePath => r matches Completion::Files { start, partial }
                    && start == path_start(line@, pos as int)
                    && partial@ == partial_path(line@, pos as int),
                CompletionContext::ModelName => r matches Completion::Ready(start, c)
                    && start == token_start(line@, pos as int, "/model "@)
                    && views(c@) == starting_with(views(self.available_models@), word_after(line@, pos as int, "/model "@), 20),
                CompletionContext::SessionId => r matches Completion::Ready(start, c)
                    && start == token_start(line@, pos as int, "/session switch "@)
                    && views(c@) == starting_with(views(self.available_sessions@), word_after(line@, pos as int, "/session switch "@), 20),
                CompletionContext::CommandName => match slash_prefix(line@, pos as int) {
                    Some(p) => r matches Completion::Ready(start, c) && start == 0 && views(c@)
                        == starting_with(views(self.completions@), p, self.completions@.len() as nat),
                    None => r matches Completion::Ready(start, c) && start == 0 && c@.len() == 0,
                },
                CompletionContext::Other => r matches Completion::Ready(start, c) && start == pos && c@.len() == 0,
            },
    {
        let context = detect_context(line, pos);
        match context {
            CompletionContext::FilePath => {
                let partial = extract_partial_path(line, pos);
                let start = find_path_start(line, pos);
                Completion::Files { start, partial }
            },
            CompletionContext::ModelName => {
                let partial = extract_after_command(line, pos, "/model ");
                let start = find_token_start(line, pos, "/model ");
                Completion::Ready(start, filter_starting_with(&self.available_models, partial.as_str(), 20))
            },
            CompletionContext::SessionId => {
                let partial = extract_after_command(line, pos, "/session switch ");
                let start = find_token_start(line, pos, "/session switch ");
                Completion::Ready(start, filter_starting_with(&self.available_sessions, partial.as_str(), 20))
            },
            CompletionContext::CommandName => {
                match slash_command_prefix(line, pos) {
                    Some(prefix) => {
                        let n = self.completions.len();
                        Completion::Ready(0, filter_starting_with(&self.completions, prefix, n))
                    },
                    None => Completion::Ready(0, Vec::new()),
                }
            },
            CompletionContext::Other => Completion::Ready(pos, Vec::new()),
        }
    }
}


// ---------------------------------------------------------------------------
// File paths
// ---------------------------------------------------------------------------

/// The text of what `Path::parent` gives for path `p`, if it gives anything.
pub uninterp spec fn path_parent_of(p: Seq<char>) -> Option<Seq<char>>;

/// Calls `Path::parent` on `p` and turns the parent back into text (lossless, as `p` is
/// text).
#[verifier::external_body]
fn path_parent(p: &str) -> (r: Option<String>)
    ensures
        match r {
            Some(s) => path_parent_of(p@) == Some(s@),
            None => path_parent_of(p@) is None,
        },
{
    match std::path::Path::new(p).parent() {
        Some(q) => Some(q.to_string_lossy().to_string()),
        None => None,
    }
}

/// The text of what `Path::file_name` gives for path `p`, if it gives anything.
pub uninterp spec fn path_file_name_of(p: Seq<char>) -> Option<Seq<char>>;

/// Calls `Path::file_name` on `p` and turns the name back into text.
#[verifier::external_body]
fn path_file_name(p: &str) -> (r: Option<String>)
    ensures
        match r {
            Some(s) => path_file_name_of(p@) == Some(s@),
            None => path_file_name_of(p@) is None,
        },
{
    match std::path::Path::new(p).file_name() {
        Some(n) => match n.to_str() {
            Some(s) => Some(s.to_string()),
            None => None,
        },
        None => None,
    }
}

/// The found text, or nothing.
pub open spec fn or_empty(o: Option<Seq<char>>) -> Seq<char> {
    match o {
        Some(s) => s,
        None => Seq::empty(),
    }
}

/// Where to look for a typed path and the start of the name typed: the whole path with
/// no name when it is empty or ends with `/`, else its parent and its file name.
pub open spec fn file_query(partial: Seq<char>) -> (Seq<char>, Seq<char>) {
    if partial.len() == 0 || partial.last() == '/' {
        (partial, Seq::empty())
    } else {
        (or_empty(path_parent_of(partial)), or_empty(path_file_name_of(partial)))
    }
}

/// Where to look for a typed path and the start of the name typed (see `file_query`).
pub fn file_completion_query(partial: &str) -> (r: (String, String))
    ensures
        (r.0@, r.1@) == file_query(partial@),
{
    let v = chars_of(partial);
    if v.len() == 0 || v[v.len() - 1] == '/' {
        return (String::from_str(partial), String::new());
    }
    let dir = match path_parent(partial) {
        Some(d) => d,
        None => String::new(),
    };
    let name = match path_file_name(partial) {
        Some(n) => n,
        None => String::new(),
    };
    (dir, name)
}

/// The directory to list for `dir`: the current one when `dir` is empty.
pub fn directory_to_list(dir: &str) -> (r: String)
    ensures
        r@ == (if dir@.len() == 0 { "."@ } else { dir@ }),
{
    if dir.unicode_len() == 0 {
        String::from_str(".")
    } else {
        String::from_str(dir)
    }
}

/// The plain values of directory entries: name and whether it is a directory.
pub open spec fn entry_views(v: Seq<(String, bool)>) -> Seq<(Seq<char>, bool)> {
    v.map_values(|e: (String, bool)| (e.0@, e.1))
}

/// A completed path: the name under `dir` (alone when `dir` is empty), with `/` after a
/// directory.
pub open spec fn completed_path(dir: Seq<char>, name: Seq<char>, is_dir: bool) -> Seq<char> {
    let full = if dir.len() == 0 { name } else { dir + "/"@ + name };
    if is_dir { full + "/"@ } else { full }
}

/// The completions for the first 20 entries whose name starts with `prefix`, in order.
pub open spec fn file_matches(entries: Seq<(Seq<char>, bool)>, dir: Seq<char>, prefix: Seq<char>) -> Seq<Seq<char>>
    decreases entries.len(),
{
    if entries.len() == 0 {
        Seq::empty()
    } else {
        let r = file_matches(entries.drop_last(), dir, prefix);
        let e = entries.last();
        if has_prefix(e.0, prefix) && r.len() < 20 {
            r.push(completed_path(dir, e.0, e.1))
        } else {
            r
        }
    }
}

/// The completions for the entries of `dir` (see `file_matches`). The entries come in the
/// order the directory was read.
pub fn file_completions(dir: &str, prefix: &str, entries: &Vec<(String, bool)>) -> (r: Vec<String>)
    ensures
        views(r@) == file_matches(entry_views(entries@), dir@, prefix@),
{
    let ghost es = entry_views(entries@);
    let mut r: Vec<String> = Vec::new();
    let mut i: usize = 0;
    while i < entries.len()
        invariant
            i <= entries@.len(),
            es == entry_views(entries@),
            views(r@) == file_matches(es.take(i as int), dir@, prefix@),
        decreases entries@.len() - i,
    {
        assert(es.take(i + 1).drop_last() =~= es.take(i as int));
        assert(es.take(i + 1).last() == (entries@[i as int].0@, entries@[i as int].1));
        let name = entries[i].0.as_str();
        if str_starts_with(name, prefix) && r.len() < 20 {
            let mut full = if dir.unicode_len() == 0 {
                String::from_str(name)
            } else {
                crate::text::concat3(dir, "/", name)
            };
            if entries[i].1 {
                full.append("/");
            }
            let ghost before = r@;
            r.push(full);
            assert(views(r@) =~= views(before).push(completed_path(dir@, name@, entries@[i as int].1)));
        }
        i = i + 1;
    }
    assert(es.take(entries@.len() as int) =~= es);
    r
}

/// The offered slash commands are clean: each starts with `/`, none repeats, and each was
/// among the candidates given.
pub proof fn lemma_normalized_clean(cs: Seq<Seq<char>>)
    ensures
        forall|i: int| 0 <= i < normalized(cs).len() ==> (#[trigger] normalized(cs)[i]).len() > 0
            && normalized(cs)[i][0] == '/' && cs.contains(normalized(cs)[i]),
        forall|i: int, j: int| 0 <= i < j < normalized(cs).len() ==> normalized(cs)[i] != normalized(cs)[j],
    decreases cs.len(),
{
    if cs.len() > 0 {
        let rest = cs.drop_last();
        lemma_normalized_clean(rest);
        let r = normalized(rest);
        assert forall|i: int| 0 <= i < r.len() implies cs.contains(#[trigger] r[i]) by {
            let k = choose|k: int| 0 <= k < rest.len() && rest[k] == r[i];
            assert(cs[k] == rest[k]);
        }
        let c = cs.last();
        if c.len() > 0 && c[0] == '/' && !r.contains(c) {
            let n = r.push(c);
            assert(cs[cs.len() - 1] == c);
            assert forall|i: int, j: int| 0 <= i < j < n.len() implies n[i] != n[j] by {
                if j == n.len() - 1 {
                    assert(r[i] == n[i]);
                    if n[i] == c {
                        assert(r.contains(c));
                    }
                }
            }
        }
    }
}
} // verus!
