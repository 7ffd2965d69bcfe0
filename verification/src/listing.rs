//! What the list dialogs share: rows grouped in named sections, a cursor kept within the
//! rows, and the size of a dialog for a terminal.
use vstd::prelude::*;
use crate::frecency::now_millis;
use crate::text::{decimal, push_decimal};

verus! {

/// All positions of the sections, one section after another.
pub open spec fn flatten(parts: Seq<(Seq<char>, Seq<usize>)>) -> Seq<usize>
    decreases parts.len(),
{
    if parts.len() == 0 {
        Seq::empty()
    } else {
        flatten(parts.drop_last()) + parts.last().1
    }
}

/// The name and starting row of each section that lists something.
pub open spec fn sections(parts: Seq<(Seq<char>, Seq<usize>)>) -> Seq<(Seq<char>, int)>
    decreases parts.len(),
{
    if parts.len() == 0 {
        Seq::empty()
    } else if parts.last().1.len() > 0 {
        sections(parts.drop_last()).push((parts.last().0, flatten(parts.drop_last()).len() as int))
    } else {
        sections(parts.drop_last())
    }
}

/// The section names and starting rows, as plain values.
pub open spec fn offsets_model(v: Seq<(String, usize)>) -> Seq<(Seq<char>, int)> {
    v.map_values(|p: (String, usize)| (p.0@, p.1 as int))
}

/// The section that row `cursor` falls in: the last one starting at or before it, else
/// `default`.
pub open spec fn section_at(offsets: Seq<(Seq<char>, int)>, cursor: int, default: Seq<char>) -> Seq<char>
    decreases offsets.len(),
{
    if offsets.len() == 0 {
        default
    } else if cursor >= offsets.last().1 {
        offsets.last().0
    } else {
        section_at(offsets.drop_last(), cursor, default)
    }
}

/// Appends a section: its rows go after the others, and its name and first row are listed
/// when it has rows.
pub fn push_section(filtered: &mut Vec<usize>, offsets: &mut Vec<(String, usize)>, name: &str, part: Vec<usize>)
    ensures
        final(filtered)@ == old(filtered)@ + part@,
        offsets_model(final(offsets)@) == if part@.len() > 0 {
            offsets_model(old(offsets)@).push((name@, old(filtered)@.len() as int))
        } else {
            offsets_model(old(offsets)@)
        },
{
    if part.len() > 0 {
        let start = filtered.len();
        let ghost before = offsets@;
        offsets.push((String::from_str(name), start));
        assert(offsets_model(offsets@) =~= offsets_model(before).push((name@, start as int)));
    }
    let ghost f0 = filtered@;
    let mut i: usize = 0;
    while i < part.len()
        invariant
            i <= part@.len(),
            filtered@ == f0 + part@.take(i as int),
        decreases part@.len() - i,
    {
        filtered.push(part[i]);
        i = i + 1;
        assert(filtered@ =~= f0 + part@.take(i as int));
    }
    assert(part@.take(part@.len() as int) =~= part@);
}

/// The name of the section that row `cursor` falls in (see `section_at`).
pub fn section_name<'a>(offsets: &'a Vec<(String, usize)>, cursor: usize, default: &'a str) -> (r: &'a str)
    ensures
        r@ == section_at(offsets_model(offsets@), cursor as int, default@),
{
    let ghost om = offsets_model(offsets@);
    let mut i: usize = offsets.len();
    assert(om.take(i as int) =~= om);
    while i > 0
        invariant
            i <= offsets@.len(),
            om == offsets_model(offsets@),
            section_at(om.take(i as int), cursor as int, default@) == section_at(om, cursor as int, default@),
        decreases i,
    {
        assert(om.take(i as int).drop_last() =~= om.take(i - 1));
        if cursor >= offsets[i - 1].1 {
            return offsets[i - 1].0.as_str();
        }
        i = i - 1;
    }
    default
}

/// The cursor moved back within `len` rows when it fell past the end.
pub open spec fn clamped_cursor(cursor: usize, len: nat) -> usize {
    if cursor >= len {
        if len > 0 { (len - 1) as usize } else { 0 }
    } else {
        cursor
    }
}

/// Keeps `cursor` within `len` rows (see `clamped_cursor`).
pub fn clamp_cursor(cursor: usize, len: usize) -> (r: usize)
    ensures
        r == clamped_cursor(cursor, len as nat),
{
    if cursor >= len {
        if len > 0 {
            len - 1
        } else {
            0
        }
    } else {
        cursor
    }
}

/// The cursor on the next row, staying on the last.
pub open spec fn next_row(cursor: usize, len: nat) -> usize {
    if cursor + 1 < len { (cursor + 1) as usize } else { cursor }
}

/// The cursor on the previous row, staying on the first.
pub open spec fn prev_row(cursor: usize) -> usize {
    if cursor > 0 { (cursor - 1) as usize } else { 0 }
}

/// Moving through a list keeps the cursor on a row, and a step down undoes a step up (off
/// the first row) as a step up undoes a step down (off the last row).
pub proof fn lemma_rows_step_back(cursor: usize, len: nat)
    requires
        cursor < len,
        len <= usize::MAX,
    ensures
        next_row(cursor, len) < len,
        prev_row(cursor) < len,
        cursor > 0 ==> next_row(prev_row(cursor), len) == cursor,
        cursor + 1 < len ==> prev_row(next_row(cursor, len)) == cursor,
{
}

/// Moves the cursor to the next row, staying on the last.
pub fn row_down(cursor: usize, len: usize) -> (r: usize)
    ensures
        r == next_row(cursor, len as nat),
{
    if len > 0 && cursor < len - 1 {
        cursor + 1
    } else {
        cursor
    }
}

/// The width of a list dialog for a terminal `term_width` columns wide.
pub open spec fn dialog_width_for(term_width: u16) -> u16 {
    if term_width >= 128 {
        116
    } else if term_width >= 96 {
        88
    } else {
        60
    }
}

/// The width of a list dialog for a terminal `term_width` columns wide: 116 from 128
/// columns, 88 from 96, else 60.
pub fn dialog_width(term_width: u16) -> (w: u16)
    ensures
        w == dialog_width_for(term_width),
{
    if term_width >= 128 {
        116
    } else if term_width >= 96 {
        88
    } else {
        60
    }
}

/// The height of a list dialog: half the terminal less `margin` rows, at least `min`.
pub open spec fn dialog_height_for(term_height: u16, margin: u16, min: u16) -> u16 {
    let h: int = term_height / 2 - margin;
    let h = if h < 0 { 0 } else { h };
    if h < min { min } else { h as u16 }
}

/// The height of a list dialog (see `dialog_height_for`).
pub fn dialog_height(term_height: u16, margin: u16, min: u16) -> (h: u16)
    ensures
        h == dialog_height_for(term_height, margin, min),
{
    let half = term_height / 2;
    let h = if half > margin {
        half - margin
    } else {
        0
    };
    if h < min {
        min
    } else {
        h
    }
}

/// How long ago `epoch_millis` was at time `now` (both in milliseconds): `just now` under a
/// minute, then whole minutes, hours or days.
pub open spec fn relative_time(epoch_millis: u128, now: u128) -> Seq<char> {
    let diff: int = if now >= epoch_millis { now - epoch_millis } else { 0 };
    let secs = diff / 1000;
    if secs < 60 {
        "just now"@
    } else if secs < 3600 {
        decimal((secs / 60) as nat) + "m ago"@
    } else if secs < 86400 {
        decimal((secs / 3600) as nat) + "h ago"@
    } else {
        decimal((secs / 86400) as nat) + "d ago"@
    }
}

/// How long ago `epoch_millis` was at time `now` (see `relative_time`).
pub fn format_relative_time_at(epoch_millis: u128, now: u128) -> (r: String)
    ensures
        r@ == relative_time(epoch_millis, now),
{
    let diff = if now >= epoch_millis {
        now - epoch_millis
    } else {
        0
    };
    let secs = diff / 1000;
    if secs < 60 {
        String::from_str("just now")
    } else if secs < 3600 {
        let mut s = String::new();
        push_decimal(&mut s, secs / 60);
        s.append("m ago");
        s
    } else if secs < 86400 {
        let mut s = String::new();
        push_decimal(&mut s, secs / 3600);
        s.append("h ago");
        s
    } else {
        let mut s = String::new();
        push_decimal(&mut s, secs / 86400);
        s.append("d ago");
        s
    }
}

/// How long ago `epoch_millis` was, now (see `relative_time`).
pub fn format_relative_time(epoch_millis: u128) -> (r: String)
    ensures
        exists|t: u128| r@ == #[trigger] relative_time(epoch_millis, t),
{
    format_relative_time_at(epoch_millis, now_millis())
}

} // verus!
