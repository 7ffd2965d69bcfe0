//! The theme picker: the available themes in sections by category, searched by id and name,
//! with the cursor kept on the current theme while it is listed. The catalog of themes (ids,
//! names and categories, in catalog order) is handed in by the caller.
use vstd::prelude::*;
use crate::listing::{clamp_cursor, clamped_cursor, flatten, next_row, offsets_model, prev_row, push_section, row_down, sections};
use crate::sorting::indices_where;
use crate::text::{contains_seq, lowercase_of, pop_char, push_char, str_contains, str_eq, to_lowercase};

verus! {

/// One theme of the catalog.
#[derive(Debug, Clone)]
pub struct ThemeListEntry {
    pub id: String,
    pub display_name: String,
    /// The label of its category.
    pub category: String,
}

/// A theme is listed for a lower-cased query when the query is empty or is contained in its
/// lower-cased id or name.
pub open spec fn theme_listed(e: ThemeListEntry, q: Seq<char>) -> bool {
    q.len() == 0 || contains_seq(lowercase_of(e.id@), q) || contains_seq(lowercase_of(e.display_name@), q)
}

fn theme_listed_exec(e: &ThemeListEntry, q: &str) -> (b: bool)
    ensures
        b == theme_listed(*e, q@),
{
    if q.unicode_len() == 0 {
        return true;
    }
    let i = to_lowercase(e.id.as_str());
    if str_contains(i.as_str(), q) {
        return true;
    }
    let n = to_lowercase(e.display_name.as_str());
    str_contains(n.as_str(), q)
}

/// The themes of category `c` listed for query `q`, in catalog order.
pub open spec fn category_themes(es: Seq<ThemeListEntry>, c: Seq<char>, q: Seq<char>) -> Seq<usize> {
    indices_where(es.len() as int, |i: int| es[i].category@ == c && theme_listed(es[i], q))
}

/// One section per category, in the given order.
pub open spec fn theme_parts(es: Seq<ThemeListEntry>, cats: Seq<Seq<char>>, q: Seq<char>) -> Seq<(Seq<char>, Seq<usize>)> {
    cats.map_values(|c: Seq<char>| (c, category_themes(es, c, q)))
}

/// The first row whose theme has id `id`.
pub open spec fn row_of_id(es: Seq<ThemeListEntry>, rows: Seq<usize>, id: Seq<char>) -> Option<int>
    decreases rows.len(),
{
    if rows.len() == 0 {
        None
    } else {
        match row_of_id(es, rows.drop_last(), id) {
            Some(p) => Some(p),
            None => if es[rows.last() as int].id@ == id {
                Some(rows.len() - 1)
            } else {
                None
            },
        }
    }
}

/// The state of the picker.
pub struct ThemeListDialogState {
    pub open: bool,
    pub all_themes: Vec<ThemeListEntry>,
    /// The category labels, in catalog order.
    pub categories: Vec<String>,
    pub filtered: Vec<usize>,
    pub section_offsets: Vec<(String, usize)>,
    pub cursor: usize,
    pub scroll: usize,
    pub search: String,
    pub selected_id: String,
}

/// The category labels of a picker.
pub open spec fn cats_of(s: ThemeListDialogState) -> Seq<Seq<char>> {
    s.categories@.map_values(|c: String| c@)
}

/// `s` lists its themes for its search, by category; the cursor is on the current theme's
/// row when it is listed, else `cursor` kept within the rows.
pub open spec fn themes_listed(s: ThemeListDialogState, cursor: usize) -> bool {
    let parts = theme_parts(s.all_themes@, cats_of(s), lowercase_of(s.search@));
    &&& s.filtered@ == flatten(parts)
    &&& offsets_model(s.section_offsets@) == sections(parts)
    &&& s.cursor == match row_of_id(s.all_themes@, s.filtered@, s.selected_id@) {
        Some(p) => p as usize,
        None => clamped_cursor(cursor, s.filtered@.len()),
    }
}

/// `s` keeps the catalog, search and current theme of `o`.
pub open spec fn same_catalog(o: ThemeListDialogState, s: ThemeListDialogState) -> bool {
    s.all_themes == o.all_themes && s.categories == o.categories && s.selected_id == o.selected_id
}

impl ThemeListDialogState {
    /// A closed picker over the catalog, with `current_theme_id` as the current theme.
    pub fn new(current_theme_id: &str, all_themes: Vec<ThemeListEntry>, categories: Vec<String>) -> (s: Self)
        ensures
            !s.open,
            s.all_themes == all_themes && s.categories == categories,
            s.selected_id@ == current_theme_id@,
            s.search@.len() == 0 && s.scroll == 0,
            themes_listed(s, 0),
    {
        let mut state = ThemeListDialogState {
            open: false,
            all_themes,
            categories,
            filtered: Vec::new(),
            section_offsets: Vec::new(),
            cursor: 0,
            scroll: 0,
            search: String::new(),
            selected_id: String::from_str(current_theme_id),
        };
        state.rebuild_filtered();
        state
    }

    /// Opens the picker with an empty search.
    pub fn open(&mut self)
        ensures
            final(self).open,
            same_catalog(*old(self), *final(self)),
            final(self).search@.len() == 0 && final(self).scroll == 0,
            themes_listed(*final(self), 0),
    {
        self.open = true;
        self.search = String::new();
        self.cursor = 0;
        self.scroll = 0;
        self.rebuild_filtered();
    }

    /// Closes the picker.
    pub fn close(&mut self)
        ensures
            !final(self).open,
            same_catalog(*old(self), *final(self)),
            final(self).filtered == old(self).filtered && final(self).cursor == old(self).cursor,
    {
        self.open = false;
    }

    /// Moves to the row above.
    pub fn cursor_up(&mut self)
        ensures
            final(self).cursor == prev_row(old(self).cursor),
            final(self).filtered == old(self).filtered && same_catalog(*old(self), *final(self)),
    {
        if self.cursor > 0 {
            self.cursor = self.cursor - 1;
        }
    }

    /// Moves to the row below, staying on the last.
    pub fn cursor_down(&mut self)
        ensures
            final(self).cursor == next_row(old(self).cursor, old(self).filtered@.len()),
            final(self).filtered == old(self).filtered && same_catalog(*old(self), *final(self)),
    {
        self.cursor = row_down(self.cursor, self.filtered.len());
    }

    /// Adds a character to the search and lists again.
    pub fn type_char(&mut self, c: char)
        ensures
            final(self).search@ == old(self).search@.push(c),
            same_catalog(*old(self), *final(self)),
            final(self).scroll == 0,
            themes_listed(*final(self), 0),
    {
        push_char(&mut self.search, c);
        self.cursor = 0;
        self.scroll = 0;
        self.rebuild_filtered();
    }

    /// Removes the last character of the search and lists again.
    pub fn backspace(&mut self)
        ensures
            final(self).search@ == if old(self).search@.len() > 0 {
                old(self).search@.drop_last()
            } else {
                old(self).search@
            },
            same_catalog(*old(self), *final(self)),
            final(self).scroll == 0,
            themes_listed(*final(self), 0),
    {
        let _ = pop_char(&mut self.search);
        self.cursor = 0;
        self.scroll = 0;
        self.rebuild_filtered();
    }

    /// The id of the theme on the cursor's row.
    pub fn selected_theme_id(&self) -> (r: Option<&str>)
        requires
            self.cursor < self.filtered@.len() ==> self.filtered@[self.cursor as int] < self.all_themes@.len(),
        ensures
            self.cursor < self.filtered@.len() ==> (r matches Some(t) && t@
                == self.all_themes@[self.filtered@[self.cursor as int] as int].id@),
            self.cursor >= self.filtered@.len() ==> r is None,
    {
        if self.cursor < self.filtered.len() {
            Some(self.all_themes[self.filtered[self.cursor]].id.as_str())
        } else {
            None
        }
    }

    fn category_rows(&self, c: &str, q: &str) -> (r: Vec<usize>)
        ensures
            r@ == category_themes(self.all_themes@, c@, q@),
            forall|j: int| 0 <= j < r@.len() ==> #[trigger] r@[j] < self.all_themes@.len(),
    {
        let ghost es = self.all_themes@;
        let ghost p = |i: int| es[i].category@ == c@ && theme_listed(es[i], q@);
        let mut r: Vec<usize> = Vec::new();
        let mut i: usize = 0;
        while i < self.all_themes.len()
            invariant
                i <= self.all_themes@.len(),
                es == self.all_themes@,
                p == (|i: int| es[i].category@ == c@ && theme_listed(es[i], q@)),
                r@ == indices_where(i as int, p),
                forall|j: int| 0 <= j < r@.len() ==> #[trigger] r@[j] < i,
            decreases self.all_themes@.len() - i,
        {
            let e = &self.all_themes[i];
            if str_eq(e.category.as_str(), c) && theme_listed_exec(e, q) {
                r.push(i);
            }
            i = i + 1;
        }
        r
    }

    /// Lists the themes matching the search by category, then puts the cursor on the current
    /// theme when it is listed, else keeps it within the rows.
    pub fn rebuild_filtered(&mut self)
        ensures
            same_catalog(*old(self), *final(self)),
            final(self).search == old(self).search,
            final(self).open == old(self).open && final(self).scroll == old(self).scroll,
            themes_listed(*final(self), old(self).cursor),
    {
        let query = to_lowercase(self.search.as_str());
        let ghost es = self.all_themes@;
        let ghost cats = cats_of(*self);
        let ghost parts = theme_parts(es, cats, query@);
        let mut filtered: Vec<usize> = Vec::new();
        let mut offsets: Vec<(String, usize)> = Vec::new();
        let mut k: usize = 0;
        proof {
            assert(parts.take(0) =~= Seq::<(Seq<char>, Seq<usize>)>::empty());
        }
        while k < self.categories.len()
            invariant
                k <= self.categories@.len(),
                es == self.all_themes@,
                cats == cats_of(*self),
                parts == theme_parts(es, cats, query@),
                filtered@ == flatten(parts.take(k as int)),
                offsets_model(offsets@) == sections(parts.take(k as int)),
                forall|j: int| 0 <= j < filtered@.len() ==> #[trigger] filtered@[j] < es.len(),
            decreases self.categories@.len() - k,
        {
            let rows = self.category_rows(self.categories[k].as_str(), query.as_str());
            let ghost f0 = filtered@;
            let ghost r0 = rows@;
            push_section(&mut filtered, &mut offsets, self.categories[k].as_str(), rows);
            proof {
                assert(parts.take(k + 1).drop_last() =~= parts.take(k as int));
                assert(parts.take(k + 1).last() == (cats[k as int], r0));
                assert forall|j: int| 0 <= j < filtered@.len() implies #[trigger] filtered@[j] < es.len() by {
                    if j >= f0.len() {
                        assert(filtered@[j] == r0[j - f0.len()]);
                    }
                }
            }
            k = k + 1;
        }
        proof {
            assert(parts.take(self.categories@.len() as int) =~= parts);
        }
        self.filtered = filtered;
        self.section_offsets = offsets;
        let ghost rows = self.filtered@;
        let mut p: usize = 0;
        let mut found: Option<usize> = None;
        while p < self.filtered.len()
            invariant
                p <= self.filtered@.len(),
                rows == self.filtered@,
                es == self.all_themes@,
                forall|j: int| 0 <= j < rows.len() ==> #[trigger] rows[j] < es.len(),
                found is None ==> row_of_id(es, rows.take(p as int), self.selected_id@) is None,
                found matches Some(f) ==> row_of_id(es, rows, self.selected_id@) == Some(f as int),
            decreases self.filtered@.len() - p,
        {
            if found.is_none() {
                assert(rows.take(p + 1).drop_last() =~= rows.take(p as int));
                if str_eq(self.all_themes[self.filtered[p]].id.as_str(), self.selected_id.as_str()) {
                    proof {
                        lemma_row_prefix(es, rows, self.selected_id@, p + 1);
                    }
                    found = Some(p);
                }
            }
            p = p + 1;
        }
        match found {
            Some(f) => {
                self.cursor = f;
            },
            None => {
                assert(rows.take(rows.len() as int) =~= rows);
                self.cursor = clamp_cursor(self.cursor, self.filtered.len());
            },
        }
    }
}

/// A row found in a prefix of the rows is the first in all of them.
pub proof fn lemma_row_prefix(es: Seq<ThemeListEntry>, rows: Seq<usize>, id: Seq<char>, k: int)
    requires
        0 <= k <= rows.len(),
        row_of_id(es, rows.take(k), id) is Some,
    ensures
        row_of_id(es, rows, id) == row_of_id(es, rows.take(k), id),
    decreases rows.len() - k,
{
    if k < rows.len() {
        assert(rows.take(k + 1).drop_last() =~= rows.take(k));
        lemma_row_prefix(es, rows, id, k + 1);
    } else {
        assert(rows.take(k) =~= rows);
    }
}

} // verus!
