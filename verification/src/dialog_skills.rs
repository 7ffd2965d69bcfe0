//! The skills dialog: installed skills in project, user and global sections, searched by
//! name, description and source. Finding the skills on disk is left to the caller, which
//! hands in the entries; reading a skill's description from its file and marking skills
//! shadowed by an earlier one of the same name are here.
use vstd::prelude::*;
use crate::input::{lines_of, text_lines};
use crate::listing::{
    clamp_cursor, clamped_cursor, flatten, next_row, offsets_model, prev_row, push_section, row_down,
    section_at, section_name, sections,
};
use crate::sorting::indices_where;
use crate::text::{
    byte_len, chars_of, contains_seq, copy_string, has_prefix, lowercase_of, pop_char, push_char, str_contains,
    str_eq, str_starts_with, str_trim, string_of_range, to_lowercase, trimmed,
};

verus! {

/// One installed skill.
#[derive(Debug, Clone)]
pub struct SkillEntry {
    pub name: String,
    pub description: Option<String>,
    /// Where it was found: `project`, `user` or `global`, then ` | ` and its directory.
    pub source: String,
    /// The earlier skill of the same name that hides this one.
    pub shadowed_by: Option<String>,
}

/// The characters of an optional string.
pub open spec fn opt_view(o: Option<String>) -> Option<Seq<char>> {
    match o {
        Some(s) => Some(s@),
        None => None,
    }
}

fn copy_opt(o: &Option<String>) -> (r: Option<String>)
    ensures
        opt_view(r) == opt_view(*o),
{
    match o {
        Some(s) => Some(copy_string(s)),
        None => None,
    }
}

// ---------------------------------------------------------------------------
// Reading skill files
// ---------------------------------------------------------------------------

/// The key of a skill file's description line.
pub open spec fn description_key() -> Seq<char> {
    "description:"@
}

/// The description in `lines`: the first line starting with `description:` whose value,
/// trimmed, is not empty.
pub open spec fn description_in(lines: Seq<Seq<char>>) -> Option<Seq<char>>
    decreases lines.len(),
{
    if lines.len() == 0 {
        None
    } else {
        let l = lines[0];
        let v = trimmed(l.skip(description_key().len() as int));
        if has_prefix(l, description_key()) && v.len() > 0 {
            Some(v)
        } else {
            description_in(lines.skip(1))
        }
    }
}

/// The description of a skill from the contents of its `SKILL.md` (see `description_in`).
pub fn parse_skill_description(contents: &str) -> (r: Option<String>)
    ensures
        opt_view(r) == description_in(text_lines(contents@)),
{
    let lines = lines_of(contents);
    let ghost ls = lines@.map_values(|l: String| l@);
    let key = "description:";
    proof {
        reveal_strlit("description:");
    }
    assert(key@.len() == 12);
    let mut k: usize = 0;
    assert(ls.skip(0) =~= ls);
    while k < lines.len()
        invariant
            k <= lines@.len(),
            ls == lines@.map_values(|l: String| l@),
            ls == text_lines(contents@),
            key@ == description_key(),
            key@.len() == 12,
            description_in(ls.skip(k as int)) == description_in(ls),
        decreases lines@.len() - k,
    {
        assert(ls.skip(k as int).skip(1) =~= ls.skip(k + 1));
        assert(ls.skip(k as int)[0] == lines@[k as int]@);
        if str_starts_with(lines[k].as_str(), key) {
            let v = chars_of(lines[k].as_str());
            let rest = string_of_range(&v, 12, v.len());
            assert(rest@ =~= lines@[k as int]@.skip(12));
            let t = str_trim(rest.as_str());
            if t.unicode_len() > 0 {
                return Some(t);
            }
        }
        k = k + 1;
    }
    None
}

/// Some skill before position `i` has the name of skill `i`.
pub open spec fn shadowed_at(skills: Seq<SkillEntry>, i: int) -> bool {
    exists|j: int| 0 <= j < i && #[trigger] skills[j].name@ == skills[i].name@
}

/// Marks each skill that an earlier skill of the same name hides: its `shadowed_by` becomes
/// that name; the first of each name is left as it is.
pub fn mark_shadowed(skills: &Vec<SkillEntry>) -> (r: Vec<SkillEntry>)
    ensures
        r@.len() == skills@.len(),
        forall|i: int|
            0 <= i < r@.len() ==> {
                &&& #[trigger] r@[i].name@ == skills@[i].name@
                &&& opt_view(r@[i].description) == opt_view(skills@[i].description)
                &&& r@[i].source@ == skills@[i].source@
                &&& opt_view(r@[i].shadowed_by) == if shadowed_at(skills@, i) {
                    Some(skills@[i].name@)
                } else {
                    opt_view(skills@[i].shadowed_by)
                }
            },
{
    let mut r: Vec<SkillEntry> = Vec::new();
    let mut i: usize = 0;
    while i < skills.len()
        invariant
            i <= skills@.len(),
            r@.len() == i,
            forall|k: int|
                0 <= k < i ==> {
                    &&& #[trigger] r@[k].name@ == skills@[k].name@
                    &&& opt_view(r@[k].description) == opt_view(skills@[k].description)
                    &&& r@[k].source@ == skills@[k].source@
                    &&& opt_view(r@[k].shadowed_by) == if shadowed_at(skills@, k) {
                        Some(skills@[k].name@)
                    } else {
                        opt_view(skills@[k].shadowed_by)
                    }
                },
        decreases skills@.len() - i,
    {
        let mut seen = false;
        let mut j: usize = 0;
        while j < i
            invariant
                j <= i < skills@.len(),
                seen == exists|m: int| 0 <= m < j && #[trigger] skills@[m].name@ == skills@[i as int].name@,
            decreases i - j,
        {
            if str_eq(skills[j].name.as_str(), skills[i].name.as_str()) {
                seen = true;
            }
            j = j + 1;
        }
        assert(seen == shadowed_at(skills@, i as int));
        let e = &skills[i];
        let shadowed_by = if seen {
            Some(copy_string(&e.name))
        } else {
            copy_opt(&e.shadowed_by)
        };
        r.push(
            SkillEntry {
                name: copy_string(&e.name),
                description: copy_opt(&e.description),
                source: copy_string(&e.source),
                shadowed_by,
            },
        );
        i = i + 1;
    }
    r
}

// ---------------------------------------------------------------------------
// The dialog
// ---------------------------------------------------------------------------

/// A skill is listed for a lower-cased query when the query is empty or is contained in
/// its lower-cased name, description or source.
pub open spec fn skill_listed(s: SkillEntry, q: Seq<char>) -> bool {
    ||| q.len() == 0
    ||| contains_seq(lowercase_of(s.name@), q)
    ||| (s.description matches Some(d) && contains_seq(lowercase_of(d@), q))
    ||| contains_seq(lowercase_of(s.source@), q)
}

fn skill_listed_exec(s: &SkillEntry, q: &str) -> (b: bool)
    ensures
        b == skill_listed(*s, q@),
{
    if q.unicode_len() == 0 {
        return true;
    }
    let n = to_lowercase(s.name.as_str());
    if str_contains(n.as_str(), q) {
        return true;
    }
    match &s.description {
        Some(d) => {
            let dl = to_lowercase(d.as_str());
            if str_contains(dl.as_str(), q) {
                return true;
            }
        },
        None => {},
    }
    let sl = to_lowercase(s.source.as_str());
    str_contains(sl.as_str(), q)
}

/// The skills from `origin` (`project`, `user`, `global`) listed for query `q`.
pub open spec fn origin_part(es: Seq<SkillEntry>, origin: Seq<char>, q: Seq<char>) -> Seq<usize> {
    indices_where(es.len() as int, |i: int| has_prefix(es[i].source@, origin) && skill_listed(es[i], q))
}

/// The three sections for query `q`.
pub open spec fn skill_parts(es: Seq<SkillEntry>, q: Seq<char>) -> Seq<(Seq<char>, Seq<usize>)> {
    seq![
        ("Project Skills"@, origin_part(es, "project"@, q)),
        ("User Skills"@, origin_part(es, "user"@, q)),
        ("Global Skills"@, origin_part(es, "global"@, q)),
    ]
}

/// The state of the dialog.
pub struct SkillsDialogState {
    pub open: bool,
    pub skills: Vec<SkillEntry>,
    pub cursor: usize,
    pub search: String,
    pub filtered: Vec<usize>,
    pub section_offsets: Vec<(String, usize)>,
}

/// `s` lists its skills for its search, in sections.
pub open spec fn skills_listed(s: SkillsDialogState) -> bool {
    let parts = skill_parts(s.skills@, lowercase_of(s.search@));
    &&& s.filtered@ == flatten(parts)
    &&& offsets_model(s.section_offsets@) == sections(parts)
}

impl SkillsDialogState {
    /// A closed dialog over the found `skills`.
    pub fn new(skills: Vec<SkillEntry>) -> (s: Self)
        ensures
            !s.open,
            s.skills == skills,
            s.filtered@.len() == 0 && s.section_offsets@.len() == 0,
            s.cursor == 0 && s.search@.len() == 0,
    {
        SkillsDialogState {
            open: false,
            skills,
            cursor: 0,
            search: String::new(),
            filtered: Vec::new(),
            section_offsets: Vec::new(),
        }
    }

    /// Opens the dialog over the skills found now, with an empty search.
    pub fn open(&mut self, skills: Vec<SkillEntry>)
        ensures
            final(self).open,
            final(self).skills == skills,
            final(self).search@.len() == 0,
            skills_listed(*final(self)),
            final(self).cursor == 0,
    {
        self.skills = skills;
        self.open = true;
        self.search = String::new();
        self.cursor = 0;
        self.rebuild_filtered();
    }

    /// Closes the dialog.
    pub fn close(&mut self)
        ensures
            !final(self).open,
            final(self).skills == old(self).skills && final(self).filtered == old(self).filtered,
            final(self).cursor == old(self).cursor && final(self).search == old(self).search,
    {
        self.open = false;
    }

    /// Moves to the row above.
    pub fn cursor_up(&mut self)
        ensures
            final(self).cursor == prev_row(old(self).cursor),
            final(self).filtered == old(self).filtered && final(self).skills == old(self).skills,
    {
        if self.cursor > 0 {
            self.cursor = self.cursor - 1;
        }
    }

    /// Moves to the row below, staying on the last.
    pub fn cursor_down(&mut self)
        ensures
            final(self).cursor == next_row(old(self).cursor, old(self).filtered@.len()),
            final(self).filtered == old(self).filtered && final(self).skills == old(self).skills,
    {
        self.cursor = row_down(self.cursor, self.filtered.len());
    }

    /// Adds a character to the search and lists again from the first row.
    pub fn type_char(&mut self, c: char)
        ensures
            final(self).search@ == old(self).search@.push(c),
            final(self).skills == old(self).skills,
            skills_listed(*final(self)),
            final(self).cursor == 0,
    {
        push_char(&mut self.search, c);
        self.cursor = 0;
        self.rebuild_filtered();
    }

    /// Removes the last character of the search and lists again from the first row.
    pub fn backspace(&mut self)
        ensures
            final(self).search@ == if old(self).search@.len() > 0 {
                old(self).search@.drop_last()
            } else {
                old(self).search@
            },
            final(self).skills == old(self).skills,
            skills_listed(*final(self)),
            final(self).cursor == 0,
    {
        let _ = pop_char(&mut self.search);
        self.cursor = 0;
        self.rebuild_filtered();
    }

    fn part(&self, origin: &str, q: &str) -> (r: Vec<usize>)
        ensures
            r@ == origin_part(self.skills@, origin@, q@),
    {
        let ghost es = self.skills@;
        let ghost p = |i: int| has_prefix(es[i].source@, origin@) && skill_listed(es[i], q@);
        let mut r: Vec<usize> = Vec::new();
        let mut i: usize = 0;
        while i < self.skills.len()
            invariant
                i <= self.skills@.len(),
                es == self.skills@,
                p == (|i: int| has_prefix(es[i].source@, origin@) && skill_listed(es[i], q@)),
                r@ == indices_where(i as int, p),
            decreases self.skills@.len() - i,
        {
            let s = &self.skills[i];
            if str_starts_with(s.source.as_str(), origin) && skill_listed_exec(s, q) {
                r.push(i);
            }
            i = i + 1;
        }
        r
    }

    /// Lists the skills matching the search in project, user and global sections, keeping
    /// the cursor within the list.
    pub fn rebuild_filtered(&mut self)
        ensures
            final(self).skills == old(self).skills && final(self).search == old(self).search,
            skills_listed(*final(self)),
            final(self).cursor == clamped_cursor(old(self).cursor, final(self).filtered@.len()),
            final(self).open == old(self).open,
    {
        let query = to_lowercase(self.search.as_str());
        let project = self.part("project", query.as_str());
        let user = self.part("user", query.as_str());
        let global = self.part("global", query.as_str());
        let mut filtered: Vec<usize> = Vec::new();
        let mut offsets: Vec<(String, usize)> = Vec::new();
        push_section(&mut filtered, &mut offsets, "Project Skills", project);
        push_section(&mut filtered, &mut offsets, "User Skills", user);
        push_section(&mut filtered, &mut offsets, "Global Skills", global);
        proof {
            let parts = skill_parts(self.skills@, query@);
            reveal_with_fuel(flatten, 4);
            reveal_with_fuel(sections, 4);
            assert(parts.drop_last().drop_last().drop_last() =~= Seq::<(Seq<char>, Seq<usize>)>::empty());
            assert(filtered@ =~= flatten(parts));
            assert(offsets_model(offsets@) =~= sections(parts));
        }
        self.filtered = filtered;
        self.section_offsets = offsets;
        self.cursor = clamp_cursor(self.cursor, self.filtered.len());
    }

    /// The name of the section the cursor is in (`Skills` before the first).
    pub fn current_section(&self) -> (r: &str)
        ensures
            r@ == section_at(offsets_model(self.section_offsets@), self.cursor as int, "Skills"@),
    {
        section_name(&self.section_offsets, self.cursor, "Skills")
    }
}


/// A skill's source as shown in `max_len` bytes: the source when it fits, else `...` and
/// its last `max_len - 3` bytes.
pub open spec fn shortened(source: Seq<char>, max_len: nat) -> Seq<char> {
    if byte_len(source) <= max_len {
        source
    } else {
        "..."@ + crate::text::tail_from_byte(source, byte_len(source) - max_len + 3).unwrap()
    }
}

/// A skill's source as shown in `max_len` bytes (see `shortened`). The cut must fall on a
/// character boundary, and leave room for the dots.
pub fn shorten_source(source: &str, max_len: usize) -> (r: String)
    requires
        byte_len(source@) > max_len ==> max_len >= 3
            && (crate::text::tail_from_byte(source@, byte_len(source@) - max_len + 3) is Some),
    ensures
        r@ == shortened(source@, max_len as nat),
{
    let n = crate::text::str_byte_len(source);
    if n <= max_len {
        return String::from_str(source);
    }
    let tail = crate::text::str_tail_from_byte(source, n - max_len + 3);
    let mut r = String::from_str("...");
    match tail {
        Some(t) => r.append(t.as_str()),
        None => {},
    }
    r
}
} // verus!
