//! The plugins dialog: installed plugins in two sections, enabled then disabled, searched by
//! name, id, version and description, each enabled or disabled from the list.
use vstd::prelude::*;
use crate::listing::{clamp_cursor, clamped_cursor, flatten, next_row, offsets_model, prev_row, push_section, row_down, sections};
use crate::sorting::indices_where;
use crate::text::{contains_seq, copy_string, lowercase_of, pop_char, push_char, str_contains, to_lowercase};

verus! {

/// One installed plugin.
#[derive(Debug, Clone)]
pub struct PluginEntry {
    pub id: String,
    pub name: String,
    pub version: String,
    pub enabled: bool,
    pub tool_count: usize,
    pub description: Option<String>,
}

/// What a search is matched against: name, id and version lower-cased and joined by
/// spaces, then the lower-cased description after a space, if there is one.
pub open spec fn plugin_search_text(e: PluginEntry) -> Seq<char> {
    let base = lowercase_of(e.name@ + " "@ + e.id@ + " "@ + e.version@);
    match e.description {
        Some(d) => base + " "@ + lowercase_of(d@),
        None => base,
    }
}

impl PluginEntry {
    /// The text a search is matched against.
    pub fn search_text(&self) -> (r: String)
        ensures
            r@ == plugin_search_text(*self),
    {
        let mut t = copy_string(&self.name);
        t.append(" ");
        t.append(self.id.as_str());
        t.append(" ");
        t.append(self.version.as_str());
        let mut text = to_lowercase(t.as_str());
        match &self.description {
            Some(d) => {
                push_char(&mut text, ' ');
                let dl = to_lowercase(d.as_str());
                text.append(dl.as_str());
                proof {
                    reveal_strlit(" ");
                    assert(seq![' '] =~= " "@);
                }
            },
            None => {},
        }
        text
    }
}

/// A plugin is listed for a lower-cased query when the query is empty or its search text
/// contains it.
pub open spec fn plugin_listed(e: PluginEntry, q: Seq<char>) -> bool {
    q.len() == 0 || contains_seq(plugin_search_text(e), q)
}

/// The two sections for query `q`: enabled plugins, then disabled ones, each in order.
pub open spec fn plugin_parts(es: Seq<PluginEntry>, q: Seq<char>) -> Seq<(Seq<char>, Seq<usize>)> {
    seq![
        ("Enabled"@, indices_where(es.len() as int, |i: int| es[i].enabled && plugin_listed(es[i], q))),
        ("Disabled"@, indices_where(es.len() as int, |i: int| !es[i].enabled && plugin_listed(es[i], q))),
    ]
}

/// The state of the dialog.
pub struct PluginsDialogState {
    pub open: bool,
    pub plugins: Vec<PluginEntry>,
    pub cursor: usize,
    pub search: String,
    pub filtered: Vec<usize>,
    pub section_offsets: Vec<(String, usize)>,
}

/// `s` lists the plugins of `s` for its search, in sections.
pub open spec fn plugins_listed(s: PluginsDialogState) -> bool {
    let parts = plugin_parts(s.plugins@, lowercase_of(s.search@));
    &&& s.filtered@ == flatten(parts)
    &&& offsets_model(s.section_offsets@) == sections(parts)
}

impl PluginsDialogState {
    /// A closed dialog listing no plugin.
    pub fn new() -> (s: Self)
        ensures
            !s.open,
            s.plugins@.len() == 0 && s.filtered@.len() == 0 && s.section_offsets@.len() == 0,
            s.cursor == 0 && s.search@.len() == 0,
    {
        PluginsDialogState {
            open: false,
            plugins: Vec::new(),
            cursor: 0,
            search: String::new(),
            filtered: Vec::new(),
            section_offsets: Vec::new(),
        }
    }

    /// Opens the dialog with an empty search.
    pub fn open(&mut self)
        ensures
            final(self).open,
            final(self).search@.len() == 0,
            final(self).plugins == old(self).plugins,
            plugins_listed(*final(self)),
            final(self).cursor == 0,
    {
        self.open = true;
        self.search = String::new();
        self.cursor = 0;
        self.rebuild_filtered();
    }

    /// Closes the dialog.
    pub fn close(&mut self)
        ensures
            !final(self).open,
            final(self).plugins == old(self).plugins && final(self).filtered == old(self).filtered,
            final(self).cursor == old(self).cursor && final(self).search == old(self).search,
    {
        self.open = false;
    }

    /// Enables or disables the plugin on the cursor's row, then lists again.
    pub fn toggle_plugin(&mut self)
        ensures
            ({
                let ok = old(self).cursor < old(self).filtered@.len()
                    && old(self).filtered@[old(self).cursor as int] < old(self).plugins@.len();
                let i = old(self).filtered@[old(self).cursor as int] as int;
                &&& ok ==> final(self).plugins@ == old(self).plugins@.update(
                    i,
                    PluginEntry { enabled: !old(self).plugins@[i].enabled, ..old(self).plugins@[i] },
                ) && plugins_listed(*final(self)) && final(self).cursor == clamped_cursor(
                    old(self).cursor,
                    final(self).filtered@.len(),
                )
                &&& !ok ==> *final(self) == *old(self)
            }),
            final(self).open == old(self).open && final(self).search == old(self).search,
    {
        if self.cursor < self.filtered.len() {
            let idx = self.filtered[self.cursor];
            if idx < self.plugins.len() {
                let mut e = self.plugins.remove(idx);
                e.enabled = !e.enabled;
                self.plugins.insert(idx, e);
                self.rebuild_filtered();
            }
        }
    }

    /// Moves to the row above.
    pub fn cursor_up(&mut self)
        ensures
            final(self).cursor == prev_row(old(self).cursor),
            final(self).filtered == old(self).filtered && final(self).plugins == old(self).plugins,
    {
        if self.cursor > 0 {
            self.cursor = self.cursor - 1;
        }
    }

    /// Moves to the row below, staying on the last.
    pub fn cursor_down(&mut self)
        ensures
            final(self).cursor == next_row(old(self).cursor, old(self).filtered@.len()),
            final(self).filtered == old(self).filtered && final(self).plugins == old(self).plugins,
    {
        self.cursor = row_down(self.cursor, self.filtered.len());
    }

    /// Adds a character to the search and lists again from the first row.
    pub fn type_char(&mut self, c: char)
        ensures
            final(self).search@ == old(self).search@.push(c),
            final(self).plugins == old(self).plugins,
            plugins_listed(*final(self)),
            final(self).cursor == 0,
    {
        push_char(&mut self.search, c);
        self.cursor = 0;
        self.rebuild_filtered();
    }

    /// Removes the last character of the search and lists again from the first row.
    pub fn backspace(&mut self)
        ensures
            final(self).search@ == if old(self).search@.len() > 0 {
                old(self).search@.drop_last()
            } else {
                old(self).search@
            },
            final(self).plugins == old(self).plugins,
            plugins_listed(*final(self)),
            final(self).cursor == 0,
    {
        let _ = pop_char(&mut self.search);
        self.cursor = 0;
        self.rebuild_filtered();
    }

    fn part(&self, enabled: bool, q: &str) -> (r: Vec<usize>)
        ensures
            r@ == indices_where(
                self.plugins@.len() as int,
                |i: int| self.plugins@[i].enabled == enabled && plugin_listed(self.plugins@[i], q@),
            ),
    {
        let ghost es = self.plugins@;
        let ghost p = |i: int| es[i].enabled == enabled && plugin_listed(es[i], q@);
        let mut r: Vec<usize> = Vec::new();
        let mut i: usize = 0;
        while i < self.plugins.len()
            invariant
                i <= self.plugins@.len(),
                es == self.plugins@,
                p == (|i: int| es[i].enabled == enabled && plugin_listed(es[i], q@)),
                r@ == indices_where(i as int, p),
            decreases self.plugins@.len() - i,
        {
            let e = &self.plugins[i];
            let keep = e.enabled == enabled && (q.unicode_len() == 0 || {
                let t = e.search_text();
                str_contains(t.as_str(), q)
            });
            if keep {
                r.push(i);
            }
            i = i + 1;
        }
        r
    }

    /// Lists the plugins matching the search, enabled ones first, keeping the cursor within
    /// the list.
    pub fn rebuild_filtered(&mut self)
        ensures
            final(self).plugins == old(self).plugins && final(self).search == old(self).search,
            plugins_listed(*final(self)),
            final(self).cursor == clamped_cursor(old(self).cursor, final(self).filtered@.len()),
            final(self).open == old(self).open,
    {
        let query = to_lowercase(self.search.as_str());
        let enabled = self.part(true, query.as_str());
        let disabled = self.part(false, query.as_str());
        let ghost es = self.plugins@;
        let ghost q = query@;
        proof {
            assert(indices_where(es.len() as int, |i: int| es[i].enabled == true && plugin_listed(es[i], q))
                == indices_where(es.len() as int, |i: int| es[i].enabled && plugin_listed(es[i], q))) by {
                assert((|i: int| es[i].enabled == true && plugin_listed(es[i], q)) =~= (|i: int| es[i].enabled
                    && plugin_listed(es[i], q)));
            }
            assert(indices_where(es.len() as int, |i: int| es[i].enabled == false && plugin_listed(es[i], q))
                == indices_where(es.len() as int, |i: int| !es[i].enabled && plugin_listed(es[i], q))) by {
                assert((|i: int| es[i].enabled == false && plugin_listed(es[i], q)) =~= (|i: int|
                    !es[i].enabled && plugin_listed(es[i], q)));
            }
        }
        let mut filtered: Vec<usize> = Vec::new();
        let mut offsets: Vec<(String, usize)> = Vec::new();
        push_section(&mut filtered, &mut offsets, "Enabled", enabled);
        push_section(&mut filtered, &mut offsets, "Disabled", disabled);
        proof {
            let parts = plugin_parts(es, q);
            reveal_with_fuel(flatten, 3);
            reveal_with_fuel(sections, 3);
            assert(parts.drop_last().drop_last() =~= Seq::<(Seq<char>, Seq<usize>)>::empty());
            assert(filtered@ =~= flatten(parts));
            assert(offsets_model(offsets@) =~= sections(parts));
        }
        self.filtered = filtered;
        self.section_offsets = offsets;
        self.cursor = clamp_cursor(self.cursor, self.filtered.len());
    }
}

} // verus!
