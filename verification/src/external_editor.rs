//! Editing a prompt in an external editor: which editor runs, and what of the edited text
//! is kept. Running the editor and the temporary file are left to the caller.
use vstd::prelude::*;
use crate::text::chars_of;

verus! {

/// The editor that runs: `$VISUAL`, else `$EDITOR`, else `vim`.
pub open spec fn editor_choice(visual: Option<Seq<char>>, editor: Option<Seq<char>>) -> Seq<char> {
    match visual {
        Some(v) => v,
        None => match editor {
            Some(e) => e,
            None => "vim"@,
        },
    }
}

/// The editor to run, from the values of `$VISUAL` and `$EDITOR` where they are set (see
/// `editor_choice`).
pub fn resolve_editor(visual: Option<String>, editor: Option<String>) -> (r: String)
    ensures
        r@ == editor_choice(
            match visual {
                Some(v) => Some(v@),
                None => None,
            },
            match editor {
                Some(e) => Some(e@),
                None => None,
            },
        ),
{
    match visual {
        Some(v) => v,
        None => match editor {
            Some(e) => e,
            None => String::from_str("vim"),
        },
    }
}

/// `s` without the line feeds and carriage returns at its end.
pub open spec fn without_trailing_newlines(s: Seq<char>) -> Seq<char>
    decreases s.len(),
{
    if s.len() > 0 && (s.last() == '\n' || s.last() == '\r') {
        without_trailing_newlines(s.drop_last())
    } else {
        s
    }
}

/// What is kept of the edited text (see `without_trailing_newlines`): a prefix of it, with
/// everything after that prefix a line break character.
pub fn strip_trailing_newlines(s: &str) -> (r: String)
    ensures
        r@ == without_trailing_newlines(s@),
        r@.len() <= s@.len(),
        r@ == s@.take(r@.len() as int),
        forall|i: int| r@.len() <= i < s@.len() ==> s@[i] == '\n' || s@[i] == '\r',
{
    let v = chars_of(s);
    let mut n: usize = v.len();
    assert(v@.take(n as int) =~= v@);
    while n > 0 && (v[n - 1] == '\n' || v[n - 1] == '\r')
        invariant
            n <= v@.len(),
            v@ == s@,
            without_trailing_newlines(v@.take(n as int)) == without_trailing_newlines(s@),
            forall|i: int| n <= i < s@.len() ==> s@[i] == '\n' || s@[i] == '\r',
        decreases n,
    {
        assert(v@.take(n as int).drop_last() =~= v@.take(n - 1));
        n = n - 1;
    }
    let r = crate::text::string_of_range(&v, 0, n);
    proof {
        assert(r@ =~= v@.take(n as int));
    }
    r
}

} // verus!
