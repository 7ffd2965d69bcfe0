//! What a list dialog shows, decided before anything is drawn: the title, the input line and
//! how it is shown, the key hint, the text shown when nothing is listed, the window of rows
//! in view with the selected and warned ones marked, and the footer. Drawing it is left to the
//! caller.
use vstd::prelude::*;

verus! {

/// How a piece of a dialog is shown.
#[derive(Debug, Clone, Copy, PartialEq, Eq, Structural)]
pub enum ViewTone {
    Normal,
    Muted,
    Accent,
    Error,
}

/// One row in view: its position in the list, a heading line shown above it (where a group
/// of rows begins), its text, a detail after it, a text at the right end, and whether it is
/// selected or shown as a warning.
#[derive(Debug, Clone)]
pub struct ViewRow {
    pub index: usize,
    pub heading: Option<String>,
    pub label: String,
    pub detail: String,
    pub trailing: String,
    pub selected: bool,
    pub warning: bool,
}

/// What a dialog shows.
#[derive(Debug, Clone)]
pub struct DialogView {
    pub title: String,
    pub input: String,
    pub input_tone: ViewTone,
    pub hint: String,
    /// The text shown in place of the list when nothing is listed.
    pub empty: Option<String>,
    /// The first list position in view.
    pub scroll_offset: usize,
    pub rows: Vec<ViewRow>,
    pub footer: String,
}

/// A row as plain values.
pub struct RowModel {
    pub index: usize,
    pub heading: Option<Seq<char>>,
    pub label: Seq<char>,
    pub detail: Seq<char>,
    pub trailing: Seq<char>,
    pub selected: bool,
    pub warning: bool,
}

/// The plain values of a row.
pub open spec fn row_model(r: ViewRow) -> RowModel {
    RowModel {
        index: r.index,
        heading: match r.heading {
            Some(h) => Some(h@),
            None => None,
        },
        label: r.label@,
        detail: r.detail@,
        trailing: r.trailing@,
        selected: r.selected,
        warning: r.warning,
    }
}

/// A dialog's view as plain values.
pub struct ViewModel {
    pub title: Seq<char>,
    pub input: Seq<char>,
    pub input_tone: ViewTone,
    pub hint: Seq<char>,
    pub empty: Option<Seq<char>>,
    pub scroll_offset: usize,
    pub rows: Seq<RowModel>,
    pub footer: Seq<char>,
}

impl DialogView {
    /// The view as plain values.
    pub open spec fn model(&self) -> ViewModel {
        ViewModel {
            title: self.title@,
            input: self.input@,
            input_tone: self.input_tone,
            hint: self.hint@,
            empty: match self.empty {
                Some(e) => Some(e@),
                None => None,
            },
            scroll_offset: self.scroll_offset,
            rows: self.rows@.map_values(|r: ViewRow| row_model(r)),
            footer: self.footer@,
        }
    }
}

/// The first list position in view for `rows` rows: the selection when it lies above the
/// window starting at `scroll`, the position that puts it on the last row when it lies on or
/// below that row, else `scroll`.
pub open spec fn view_scroll(selected: usize, scroll: usize, rows: usize) -> usize {
    if selected < scroll {
        selected
    } else if rows > 0 && selected - scroll >= rows - 1 {
        (selected - (rows - 1)) as usize
    } else {
        scroll
    }
}

/// The first list position in view (see `view_scroll`).
pub fn view_scroll_offset(selected: usize, scroll: usize, rows: usize) -> (r: usize)
    ensures
        r == view_scroll(selected, scroll, rows),
{
    if selected < scroll {
        selected
    } else if rows > 0 && selected - scroll >= rows - 1 {
        selected - (rows - 1)
    } else {
        scroll
    }
}

/// How many rows are in view from position `off` of `len`, at most `rows`.
pub open spec fn shown_count(off: usize, rows: usize, len: nat) -> nat {
    if off >= len {
        0
    } else if len - off < rows {
        (len - off) as nat
    } else {
        rows as nat
    }
}

/// A view with a title, an input line, a hint and a footer, and nothing else yet.
pub fn view_frame(title: &str, input: String, input_tone: ViewTone, hint: &str, footer: String) -> (v: DialogView)
    ensures
        v.model() == (ViewModel {
            title: title@,
            input: input@,
            input_tone,
            hint: hint@,
            empty: None,
            scroll_offset: 0,
            rows: Seq::empty(),
            footer: footer@,
        }),
{
    let v = DialogView {
        title: String::from_str(title),
        input,
        input_tone,
        hint: String::from_str(hint),
        empty: None,
        scroll_offset: 0,
        rows: Vec::new(),
        footer,
    };
    assert(v.model().rows =~= Seq::<RowModel>::empty());
    v
}

} // verus!
