//! What the session dialogs share: recognising session files by their extension, ordering
//! sessions newest first, and naming how long ago a day was.
use vstd::prelude::*;
use crate::frecency::now_millis;
use crate::sorting::{is_stable_sort, stable_sort_indices};
use crate::text::{chars_of, decimal, push_decimal, str_eq};

verus! {

/// What `Path::extension` gives for a path, as text: the part of the file name after its
/// last `.`, when there is one.
pub uninterp spec fn path_extension_of(path: Seq<char>) -> Option<Seq<char>>;

/// Calls `Path::extension` on `path`.
#[verifier::external_body]
fn path_extension(path: &str) -> (r: Option<String>)
    ensures
        match r {
            Some(e) => path_extension_of(path@) == Some(e@),
            None => path_extension_of(path@) is None,
        },
{
    std::path::Path::new(path).extension().and_then(|e| e.to_str()).map(|e| e.to_string())
}

/// A session file has the extension `jsonl` or `json`.
pub open spec fn session_file(path: Seq<char>) -> bool {
    match path_extension_of(path) {
        Some(e) => e == "jsonl"@ || e == "json"@,
        None => false,
    }
}

/// Whether `path` names a session file (extension `jsonl` or `json`).
pub fn is_session_file(path: &str) -> (b: bool)
    ensures
        b == session_file(path@),
{
    match path_extension(path) {
        Some(e) => str_eq(e.as_str(), "jsonl") || str_eq(e.as_str(), "json"),
        None => false,
    }
}

/// `PathBuf::clone` gives a path equal to the one cloned.
pub assume_specification[<std::path::PathBuf as std::clone::Clone>::clone](p: &std::path::PathBuf) -> (r: std::path::PathBuf)
    ensures
        r == *p,
;

// ---------------------------------------------------------------------------
// Newest first
// ---------------------------------------------------------------------------

/// `a` comes no later than `b` in the order of strings (character by character, by code
/// point; a prefix first).
pub open spec fn lex_le(a: Seq<char>, b: Seq<char>) -> bool
    decreases a.len(),
{
    if a.len() == 0 {
        true
    } else if b.len() == 0 {
        false
    } else if a[0] != b[0] {
        a[0] < b[0]
    } else {
        lex_le(a.skip(1), b.skip(1))
    }
}

/// The order of strings is total.
pub proof fn lemma_lex_total(a: Seq<char>, b: Seq<char>)
    ensures
        lex_le(a, b) || lex_le(b, a),
    decreases a.len(),
{
    if a.len() > 0 && b.len() > 0 && a[0] == b[0] {
        lemma_lex_total(a.skip(1), b.skip(1));
    }
}

/// The order of strings is transitive.
pub proof fn lemma_lex_trans(a: Seq<char>, b: Seq<char>, c: Seq<char>)
    requires
        lex_le(a, b),
        lex_le(b, c),
    ensures
        lex_le(a, c),
    decreases a.len(),
{
    if a.len() > 0 && b.len() > 0 && c.len() > 0 && a[0] == b[0] && b[0] == c[0] {
        lemma_lex_trans(a.skip(1), b.skip(1), c.skip(1));
    }
}

/// Whether `a` comes no later than `b` in the order of strings.
pub fn str_le(a: &str, b: &str) -> (r: bool)
    ensures
        r == lex_le(a@, b@),
{
    let av = chars_of(a);
    let bv = chars_of(b);
    let mut i: usize = 0;
    assert(av@.skip(0) =~= av@);
    assert(bv@.skip(0) =~= bv@);
    while i < av.len() && i < bv.len() && av[i] == bv[i]
        invariant
            i <= av@.len(),
            i <= bv@.len(),
            lex_le(av@.skip(i as int), bv@.skip(i as int)) == lex_le(a@, b@),
            av@ == a@,
            bv@ == b@,
        decreases av@.len() - i,
    {
        assert(av@.skip(i as int).skip(1) =~= av@.skip(i + 1));
        assert(bv@.skip(i as int).skip(1) =~= bv@.skip(i + 1));
        i = i + 1;
    }
    if i == av.len() {
        true
    } else if i == bv.len() {
        false
    } else {
        av[i] < bv[i]
    }
}

/// Session `i` comes no later than session `j`: modified later, or at the same time with
/// an id that is not smaller.
pub open spec fn newest_first(keys: Seq<(u128, Seq<char>)>) -> spec_fn(int, int) -> bool {
    |i: int, j: int| keys[i].0 > keys[j].0 || (keys[i].0 == keys[j].0 && lex_le(keys[j].1, keys[i].1))
}

/// The positions of sessions with the given modification times and ids, newest first
/// (larger id first at equal times; equal ones in their order).
pub fn order_newest_first(modified: &Vec<u128>, ids: &Vec<String>) -> (perm: Vec<usize>)
    requires
        modified@.len() == ids@.len(),
    ensures
        is_stable_sort(
            newest_first(Seq::new(ids@.len(), |i: int| (modified@[i], ids@[i]@))),
            ids@.len() as int,
            perm@,
        ),
{
    let n = ids.len();
    let ghost keys = Seq::new(ids@.len(), |i: int| (modified@[i], ids@[i]@));
    let ghost rel = newest_first(keys);
    let le = |a: usize, b: usize| -> (r: bool)
        requires
            a < ids@.len(),
            b < ids@.len(),
            modified@.len() == ids@.len(),
        ensures
            r == (modified@[a as int] > modified@[b as int] || (modified@[a as int] == modified@[b as int]
                && lex_le(ids@[b as int]@, ids@[a as int]@))),
        {
            modified[a] > modified[b] || (modified[a] == modified[b] && str_le(ids[b].as_str(), ids[a].as_str()))
        };
    proof {
        assert forall|a: int, b: int| 0 <= a < n && 0 <= b < n implies #[trigger] rel(a, b) || rel(b, a) by {
            lemma_lex_total(keys[a].1, keys[b].1);
        }
        assert forall|a: int, b: int, c: int|
            0 <= a < n && 0 <= b < n && 0 <= c < n && #[trigger] rel(a, b) && #[trigger] rel(b, c) implies rel(a, c) by {
            if keys[a].0 == keys[b].0 && keys[b].0 == keys[c].0 {
                lemma_lex_trans(keys[c].1, keys[b].1, keys[a].1);
            }
        }
        assert forall|a: usize, b: usize, r: bool|
            a < n && b < n && #[trigger] le.ensures((a, b), r) implies r == rel(a as int, b as int) by {}
    }
    stable_sort_indices(n, le, Ghost(rel))
}

/// The group a time falls in at time `now`: today, yesterday, some days ago, or some weeks
/// ago.
pub open spec fn category_of(epoch_millis: u128, now: u128) -> Seq<char> {
    let diff: int = if now >= epoch_millis { now - epoch_millis } else { 0 };
    let days = diff / 86_400_000;
    if days == 0 {
        "Today"@
    } else if days == 1 {
        "Yesterday"@
    } else if days < 7 {
        decimal(days as nat) + " days ago"@
    } else {
        decimal((days / 7) as nat) + " weeks ago"@
    }
}

/// The group `epoch_millis` falls in at time `now` (see `category_of`).
pub fn category_label_at(epoch_millis: u128, now: u128) -> (r: String)
    ensures
        r@ == category_of(epoch_millis, now),
{
    let diff = if now >= epoch_millis {
        now - epoch_millis
    } else {
        0
    };
    let days = diff / 86_400_000;
    if days == 0 {
        String::from_str("Today")
    } else if days == 1 {
        String::from_str("Yesterday")
    } else if days < 7 {
        let mut s = String::new();
        push_decimal(&mut s, days);
        s.append(" days ago");
        s
    } else {
        let mut s = String::new();
        push_decimal(&mut s, days / 7);
        s.append(" weeks ago");
        s
    }
}

/// The group `epoch_millis` falls in now (see `category_of`).
pub fn category_label(epoch_millis: u128) -> (r: String)
    ensures
        exists|t: u128| r@ == #[trigger] category_of(epoch_millis, t),
{
    category_label_at(epoch_millis, now_millis())
}

} // verus!
