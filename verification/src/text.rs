//! Character and string primitives shared by the editor and the dialogs.
//!
//! Strings are specified through their character sequences (`s@`).
use vstd::prelude::*;

verus! {

// ---------------------------------------------------------------------------
// Character classes
// ---------------------------------------------------------------------------

/// The Unicode `White_Space` property, as `char::is_whitespace` defines it.
pub open spec fn is_white_space(c: char) -> bool {
    let u = c as u32;
    ||| 0x09 <= u <= 0x0d
    ||| u == 0x20
    ||| u == 0x85
    ||| u == 0xa0
    ||| u == 0x1680
    ||| 0x2000 <= u <= 0x200a
    ||| u == 0x2028
    ||| u == 0x2029
    ||| u == 0x202f
    ||| u == 0x205f
    ||| u == 0x3000
}

/// Whether `c` is white space (the behaviour of `char::is_whitespace`).
pub fn char_is_whitespace(c: char) -> (b: bool)
    ensures
        b == is_white_space(c),
{
    let u = c as u32;
    (0x09 <= u && u <= 0x0d) || u == 0x20 || u == 0x85 || u == 0xa0 || u == 0x1680 || (0x2000
        <= u && u <= 0x200a) || u == 0x2028 || u == 0x2029 || u == 0x202f || u == 0x205f || u
        == 0x3000
}

/// The general category `Cc`, as `char::is_control` defines it.
pub open spec fn is_control_char(c: char) -> bool {
    (c as u32) <= 0x1f || (0x7f <= (c as u32) && (c as u32) <= 0x9f)
}

/// Whether `c` is a control character (the behaviour of `char::is_control`).
pub fn char_is_control(c: char) -> (b: bool)
    ensures
        b == is_control_char(c),
{
    let u = c as u32;
    u <= 0x1f || (0x7f <= u && u <= 0x9f)
}

/// ASCII letters and digits.
pub open spec fn is_ascii_alnum(c: char) -> bool {
    ('a' <= c && c <= 'z') || ('A' <= c && c <= 'Z') || ('0' <= c && c <= '9')
}

/// What `char::is_alphanumeric` returns for a character (Unicode `Alphabetic` or `Numeric`).
pub uninterp spec fn alphanumeric_of(c: char) -> bool;

/// Calls `char::is_alphanumeric`. The Unicode tables are not restated here; for ASCII the
/// result is the ASCII letter-or-digit test, as the standard library documents.
#[verifier::external_body]
pub(crate) fn char_is_alphanumeric(c: char) -> (b: bool)
    ensures
        b == alphanumeric_of(c),
        (c as u32) < 128 ==> (b <==> is_ascii_alnum(c)),
{
    c.is_alphanumeric()
}

/// The decimal digit value of `c`, as `char::to_digit(10)` gives it.
pub open spec fn digit_value(c: char) -> Option<u32> {
    if '0' <= c && c <= '9' {
        Some((c as u32 - '0' as u32) as u32)
    } else {
        None
    }
}

/// `char::to_digit(10)`.
pub fn char_to_digit(c: char) -> (r: Option<u32>)
    ensures
        r == digit_value(c),
{
    if '0' <= c && c <= '9' {
        Some(c as u32 - '0' as u32)
    } else {
        None
    }
}

/// Number of bytes in the UTF-8 encoding of `c` (`char::len_utf8`).
pub open spec fn utf8_len(c: char) -> nat {
    let u = c as u32;
    if u < 0x80 {
        1
    } else if u < 0x800 {
        2
    } else if u < 0x10000 {
        3
    } else {
        4
    }
}

/// `char::len_utf8`.
pub fn char_len_utf8(c: char) -> (r: usize)
    ensures
        r == utf8_len(c),
{
    let u = c as u32;
    if u < 0x80 {
        1
    } else if u < 0x800 {
        2
    } else if u < 0x10000 {
        3
    } else {
        4
    }
}

/// Number of bytes in the UTF-8 encoding of a character sequence (`str::len`).
pub open spec fn byte_len(s: Seq<char>) -> nat
    decreases s.len(),
{
    if s.len() == 0 {
        0
    } else {
        byte_len(s.drop_last()) + utf8_len(s.last())
    }
}

/// The byte length of a prefix grows with the prefix.
pub proof fn lemma_byte_len_prefix(s: Seq<char>, i: int, j: int)
    requires
        0 <= i <= j <= s.len(),
    ensures
        byte_len(s.take(i)) <= byte_len(s.take(j)),
        byte_len(s.take(j)) >= j,
    decreases j,
{
    if j > 0 {
        assert(s.take(j).drop_last() =~= s.take(j - 1));
        if i < j {
            lemma_byte_len_prefix(s, i, j - 1);
        } else {
            lemma_byte_len_prefix(s, j - 1, j - 1);
        }
    } else {
        assert(s.take(j) =~= Seq::<char>::empty());
    }
}

// ---------------------------------------------------------------------------
// Display widths (unicode-width)
// ---------------------------------------------------------------------------

/// What `UnicodeWidthChar::width` returns for a character.
pub uninterp spec fn char_width_of(c: char) -> Option<usize>;

/// Calls `UnicodeWidthChar::width` of unicode-width. The crate's source answers `None` exactly
/// for the C0 and C1 control codes, `Some(1)` for printable ASCII, and never more than 3
/// columns; the width tables for the rest are not restated.
#[verifier::external_body]
pub(crate) fn char_width(c: char) -> (r: Option<usize>)
    ensures
        r == char_width_of(c),
        r is None <==> ((c as u32) < 0x20 || (0x7f <= (c as u32) && (c as u32) < 0xa0)),
        (0x20 <= (c as u32) && (c as u32) < 0x7f) ==> r == Some(1usize),
        r matches Some(w) ==> w <= 3,
{
    unicode_width::UnicodeWidthChar::width(c)
}

/// What `UnicodeWidthStr::width` returns for a string.
pub uninterp spec fn str_width_of(s: Seq<char>) -> usize;

/// Whether every character of `s` is printable ASCII (space to `~`).
pub open spec fn all_printable_ascii(s: Seq<char>) -> bool {
    forall|i: int| 0 <= i < s.len() ==> 0x20 <= (#[trigger] s[i] as u32) && (s[i] as u32) < 0x7f
}

/// Calls `UnicodeWidthStr::width` of unicode-width. Its source sums per-character widths with
/// adjustments for emoji and joining sequences; stated are the name of the result, that the
/// empty string is 0 columns wide, and that printable ASCII takes one column per character
/// (each such character adds 1 and starts no sequence).
#[verifier::external_body]
pub(crate) fn str_width(s: &str) -> (r: usize)
    ensures
        r == str_width_of(s@),
        s@.len() == 0 ==> r == 0,
        all_printable_ascii(s@) ==> r == s@.len(),
{
    unicode_width::UnicodeWidthStr::width(s)
}

// ---------------------------------------------------------------------------
// Lower-casing
// ---------------------------------------------------------------------------

/// What `str::to_lowercase` returns for a character sequence (full Unicode case mapping).
pub uninterp spec fn lowercase_of(s: Seq<char>) -> Seq<char>;

/// The ASCII lower case of `c`: `A` to `Z` become `a` to `z`, every other character stays.
pub open spec fn ascii_lower(c: char) -> char {
    if 0x41 <= (c as u32) && (c as u32) <= 0x5a { ((c as u32) + 32) as char } else { c }
}

/// Whether every character of `s` is ASCII.
pub open spec fn all_ascii(s: Seq<char>) -> bool {
    forall|i: int| 0 <= i < s.len() ==> (#[trigger] s[i] as u32) < 0x80
}

/// Calls `str::to_lowercase`. Each character is replaced by its lower-case mapping, which
/// is one or more characters (the standard library documents that a character can expand into
/// several), so the result is empty exactly when `s` is and never has fewer characters; an
/// ASCII character maps to its ASCII lower case.
#[verifier::external_body]
pub(crate) fn to_lowercase(s: &str) -> (r: String)
    ensures
        r@ == lowercase_of(s@),
        s@.len() == 0 <==> r@.len() == 0,
        r@.len() >= s@.len(),
        all_ascii(s@) ==> r@ == s@.map_values(|c: char| ascii_lower(c)),
{
    s.to_lowercase()
}

// ---------------------------------------------------------------------------
// String construction
// ---------------------------------------------------------------------------

/// Calls `String::push`.
#[verifier::external_body]
pub(crate) fn push_char(s: &mut String, c: char)
    ensures
        final(s)@ == old(s)@.push(c),
{
    s.push(c);
}

/// Calls `String::pop`.
#[verifier::external_body]
pub(crate) fn pop_char(s: &mut String) -> (r: Option<char>)
    ensures
        old(s)@.len() == 0 ==> r is None && final(s)@ == old(s)@,
        old(s)@.len() > 0 ==> r == Some(old(s)@.last()) && final(s)@ == old(s)@.drop_last(),
{
    s.pop()
}

/// The characters of `s`, in order.
pub fn chars_of(s: &str) -> (v: Vec<char>)
    ensures
        v@ == s@,
{
    let n = s.unicode_len();
    let mut v: Vec<char> = Vec::new();
    let mut i: usize = 0;
    while i < n
        invariant
            n == s@.len(),
            i <= n,
            v@ == s@.take(i as int),
        decreases n - i,
    {
        let c = s.get_char(i);
        v.push(c);
        i = i + 1;
        assert(v@ =~= s@.take(i as int));
    }
    assert(s@.take(n as int) =~= s@);
    v
}

/// A string holding the characters `v[from..to]`.
pub fn string_of_range(v: &Vec<char>, from: usize, to: usize) -> (s: String)
    requires
        from <= to <= v@.len(),
    ensures
        s@ == v@.subrange(from as int, to as int),
{
    let mut s = String::new();
    let mut i = from;
    while i < to
        invariant
            from <= i <= to <= v@.len(),
            s@ == v@.subrange(from as int, i as int),
        decreases to - i,
    {
        push_char(&mut s, v[i]);
        i = i + 1;
        assert(s@ =~= v@.subrange(from as int, i as int));
    }
    s
}

/// A string holding the characters of `v`.
pub fn string_of(v: &Vec<char>) -> (s: String)
    ensures
        s@ == v@,
{
    let s = string_of_range(v, 0, v.len());
    assert(v@.subrange(0, v@.len() as int) =~= v@);
    s
}

/// A new string with the characters of `s` followed by those of `t`.
pub fn concat(s: &str, t: &str) -> (r: String)
    ensures
        r@ == s@ + t@,
{
    let mut r = String::from_str(s);
    r.append(t);
    r
}

/// A new string with the characters of three pieces.
pub fn concat3(a: &str, b: &str, c: &str) -> (r: String)
    ensures
        r@ == a@ + b@ + c@,
{
    let mut r = String::from_str(a);
    r.append(b);
    r.append(c);
    r
}

/// A copy of `s`.
pub fn copy_string(s: &String) -> (r: String)
    ensures
        r@ == s@,
{
    String::from_str(s.as_str())
}

/// A one-character string.
pub fn char_string(c: char) -> (r: String)
    ensures
        r@ == seq![c],
{
    let mut r = String::new();
    push_char(&mut r, c);
    assert(r@ =~= seq![c]);
    r
}

// ---------------------------------------------------------------------------
// Searching
// ---------------------------------------------------------------------------

/// `needle` occurs as a contiguous block inside `hay` (`str::contains`).
pub open spec fn contains_seq(hay: Seq<char>, needle: Seq<char>) -> bool {
    exists|i: int|
        0 <= i && i + needle.len() <= hay.len() && #[trigger] hay.subrange(i, i + needle.len())
            == needle
}

/// `p` is a prefix of `s` (`str::starts_with`).
pub open spec fn has_prefix(s: Seq<char>, p: Seq<char>) -> bool {
    p.len() <= s.len() && s.take(p.len() as int) == p
}

/// `p` is a suffix of `s` (`str::ends_with`).
pub open spec fn has_suffix(s: Seq<char>, p: Seq<char>) -> bool {
    p.len() <= s.len() && s.skip(s.len() - p.len()) == p
}

/// Whether `hay[at..]` begins with `needle`.
pub fn matches_at(hay: &Vec<char>, needle: &Vec<char>, at: usize) -> (b: bool)
    requires
        at + needle@.len() <= hay@.len(),
    ensures
        b == (hay@.subrange(at as int, at + needle@.len()) == needle@),
{
    let mut k: usize = 0;
    while k < needle.len()
        invariant
            at + needle@.len() <= hay@.len(),
            k <= needle@.len(),
            hay@.len() == hay.len(),
            forall|j: int| 0 <= j < k ==> hay@[at + j] == needle@[j],
        decreases needle@.len() - k,
    {
        if hay[at + k] != needle[k] {
            assert(hay@.subrange(at as int, at + needle@.len())[k as int] != needle@[k as int]);
            return false;
        }
        k = k + 1;
    }
    assert(hay@.subrange(at as int, at + needle@.len()) =~= needle@);
    true
}

/// Whether `needle` occurs in `hay` (`str::contains`).
pub fn seq_contains(hay: &Vec<char>, needle: &Vec<char>) -> (b: bool)
    ensures
        b == contains_seq(hay@, needle@),
{
    if needle.len() > hay.len() {
        return false;
    }
    if needle.len() == 0 {
        assert(hay@.subrange(0int, 0int + needle@.len()) =~= needle@);
        return true;
    }
    let last = hay.len() - needle.len();
    let mut i: usize = 0;
    while i <= last
        invariant
            last == hay@.len() - needle@.len(),
            0 < needle@.len() <= hay@.len(),
            hay@.len() == hay.len(),
            last < hay.len(),
            forall|j: int|
                0 <= j < i ==> #[trigger] hay@.subrange(j, j + needle@.len()) != needle@,
        decreases last + 1 - i,
    {
        if matches_at(hay, needle, i) {
            return true;
        }
        i = i + 1;
    }
    false
}

/// Whether `needle` occurs in `hay` (`str::contains` on strings).
pub fn str_contains(hay: &str, needle: &str) -> (b: bool)
    ensures
        b == contains_seq(hay@, needle@),
{
    let h = chars_of(hay);
    let n = chars_of(needle);
    seq_contains(&h, &n)
}

/// Whether `s` starts with `p` (`str::starts_with`).
pub fn seq_starts_with(s: &Vec<char>, p: &Vec<char>) -> (b: bool)
    ensures
        b == has_prefix(s@, p@),
{
    if p.len() > s.len() {
        return false;
    }
    let r = matches_at(s, p, 0);
    assert(s@.subrange(0, p@.len() as int) =~= s@.take(p@.len() as int));
    r
}

/// Whether `s` starts with `p` (`str::starts_with` on strings).
pub fn str_starts_with(s: &str, p: &str) -> (b: bool)
    ensures
        b == has_prefix(s@, p@),
{
    let sv = chars_of(s);
    let pv = chars_of(p);
    seq_starts_with(&sv, &pv)
}

/// Whether `s` ends with `p` (`str::ends_with` on strings).
pub fn str_ends_with(s: &str, p: &str) -> (b: bool)
    ensures
        b == has_suffix(s@, p@),
{
    let sv = chars_of(s);
    let pv = chars_of(p);
    if pv.len() > sv.len() {
        return false;
    }
    let at = sv.len() - pv.len();
    let r = matches_at(&sv, &pv, at);
    assert(sv@.subrange(at as int, at + pv@.len()) =~= sv@.skip(sv@.len() - pv@.len()));
    r
}

/// Whether two strings hold the same characters (`==` on strings).
pub fn str_eq(a: &str, b: &str) -> (r: bool)
    ensures
        r == (a@ == b@),
{
    let av = chars_of(a);
    let bv = chars_of(b);
    if av.len() != bv.len() {
        return false;
    }
    let r = matches_at(&av, &bv, 0);
    assert(av@.subrange(0, bv@.len() as int) =~= av@);
    r
}

/// Every character of `s` is white space, i.e. `s.trim().is_empty()`.
pub open spec fn is_blank(s: Seq<char>) -> bool {
    forall|i: int| 0 <= i < s.len() ==> is_white_space(#[trigger] s[i])
}

/// Whether `s.trim()` is empty.
pub fn str_is_blank(s: &str) -> (b: bool)
    ensures
        b == is_blank(s@),
{
    let v = chars_of(s);
    let mut i: usize = 0;
    while i < v.len()
        invariant
            v@ == s@,
            i <= v@.len(),
            forall|j: int| 0 <= j < i ==> is_white_space(#[trigger] s@[j]),
        decreases v@.len() - i,
    {
        if !char_is_whitespace(v[i]) {
            return false;
        }
        i = i + 1;
    }
    true
}

/// Index of the first character that is not white space (`s.len()` when there is none).
pub open spec fn trim_start_index(s: Seq<char>) -> int
    decreases s.len(),
{
    if s.len() == 0 {
        0
    } else if is_white_space(s[0]) {
        1 + trim_start_index(s.drop_first())
    } else {
        0
    }
}

/// Index just after the last character that is not white space (0 when there is none).
pub open spec fn trim_end_index(s: Seq<char>) -> int
    decreases s.len(),
{
    if s.len() == 0 {
        0
    } else if is_white_space(s.last()) {
        trim_end_index(s.drop_last())
    } else {
        s.len() as int
    }
}

/// `s` with leading and trailing white space removed (`str::trim`).
pub open spec fn trimmed(s: Seq<char>) -> Seq<char> {
    if trim_start_index(s) >= trim_end_index(s) {
        Seq::empty()
    } else {
        s.subrange(trim_start_index(s), trim_end_index(s))
    }
}

proof fn lemma_trim_start_bounds(s: Seq<char>)
    ensures
        0 <= trim_start_index(s) <= s.len(),
        forall|j: int| 0 <= j < trim_start_index(s) ==> is_white_space(#[trigger] s[j]),
        trim_start_index(s) < s.len() ==> !is_white_space(s[trim_start_index(s)]),
    decreases s.len(),
{
    if s.len() > 0 && is_white_space(s[0]) {
        lemma_trim_start_bounds(s.drop_first());
        assert forall|j: int| 0 <= j < trim_start_index(s) implies is_white_space(
            #[trigger] s[j],
        ) by {
            if j > 0 {
                assert(s[j] == s.drop_first()[j - 1]);
            }
        }
    }
}

proof fn lemma_trim_end_bounds(s: Seq<char>)
    ensures
        0 <= trim_end_index(s) <= s.len(),
        forall|j: int| trim_end_index(s) <= j < s.len() ==> is_white_space(#[trigger] s[j]),
        trim_end_index(s) > 0 ==> !is_white_space(s[trim_end_index(s) - 1]),
    decreases s.len(),
{
    if s.len() > 0 && is_white_space(s.last()) {
        lemma_trim_end_bounds(s.drop_last());
        assert forall|j: int| trim_end_index(s) <= j < s.len() implies is_white_space(
            #[trigger] s[j],
        ) by {
            if j < s.len() - 1 {
                assert(s[j] == s.drop_last()[j]);
            }
        }
    }
}

/// `str::trim`.
pub fn str_trim(s: &str) -> (r: String)
    ensures
        r@ == trimmed(s@),
{
    let v = chars_of(s);
    let mut start: usize = 0;
    proof {
        lemma_trim_start_bounds(s@);
        lemma_trim_end_bounds(s@);
    }
    while start < v.len() && char_is_whitespace(v[start])
        invariant
            v@ == s@,
            start <= v@.len(),
            start <= trim_start_index(s@),
            forall|j: int| 0 <= j < trim_start_index(s@) ==> is_white_space(#[trigger] s@[j]),
            trim_start_index(s@) < s@.len() ==> !is_white_space(s@[trim_start_index(s@)]),
            0 <= trim_start_index(s@) <= s@.len(),
        decreases v@.len() - start,
    {
        start = start + 1;
    }
    let mut end: usize = v.len();
    while end > start && char_is_whitespace(v[end - 1])
        invariant
            v@ == s@,
            start <= end <= v@.len(),
            end >= trim_end_index(s@),
            forall|j: int| trim_end_index(s@) <= j < s@.len() ==> is_white_space(#[trigger] s@[j]),
            trim_end_index(s@) > 0 ==> !is_white_space(s@[trim_end_index(s@) - 1]),
            0 <= trim_end_index(s@) <= s@.len(),
        decreases end,
    {
        end = end - 1;
    }
    if start == v.len() {
        // all white space
        assert(start == trim_start_index(s@));
        assert(trim_end_index(s@) == 0 || trim_end_index(s@) <= start) by {
            if trim_end_index(s@) > 0 {
                assert(is_white_space(s@[trim_end_index(s@) - 1]));
            }
        }
        let r = String::new();
        return r;
    }
    assert(start == trim_start_index(s@));
    assert(end == trim_end_index(s@)) by {
        assert(!is_white_space(s@[start as int]));
        if end > trim_end_index(s@) {
            assert(is_white_space(s@[end - 1]));
        }
    }
    string_of_range(&v, start, end)
}

/// Whether `s` is blank is the same as its trimmed form being empty.
pub proof fn lemma_blank_iff_trim_empty(s: Seq<char>)
    ensures
        is_blank(s) <==> trimmed(s).len() == 0,
{
    lemma_trim_start_bounds(s);
    lemma_trim_end_bounds(s);
    if trimmed(s).len() == 0 {
        if trim_start_index(s) < s.len() {
            let k = trim_start_index(s);
            assert(!is_white_space(s[k]));
            assert(trim_end_index(s) > k) by {
                if trim_end_index(s) <= k {
                    assert(is_white_space(s[k]));
                }
            }
        }
    } else {
        let k = trim_start_index(s);
        assert(!is_white_space(s[k]));
    }
}

// ---------------------------------------------------------------------------
// Decimal numbers
// ---------------------------------------------------------------------------

/// The digit character for a value below ten.
pub open spec fn digit_char(d: nat) -> char {
    if d == 0 { '0' }
    else if d == 1 { '1' }
    else if d == 2 { '2' }
    else if d == 3 { '3' }
    else if d == 4 { '4' }
    else if d == 5 { '5' }
    else if d == 6 { '6' }
    else if d == 7 { '7' }
    else if d == 8 { '8' }
    else { '9' }
}

/// The decimal representation of `n` (what `Display` prints for an unsigned integer).
pub open spec fn decimal(n: nat) -> Seq<char>
    decreases n,
{
    if n < 10 {
        seq![digit_char(n)]
    } else {
        decimal(n / 10).push(digit_char(n % 10))
    }
}

fn digit_to_char(d: u128) -> (c: char)
    requires
        d < 10,
    ensures
        c == digit_char(d as nat),
{
    if d == 0 { '0' }
    else if d == 1 { '1' }
    else if d == 2 { '2' }
    else if d == 3 { '3' }
    else if d == 4 { '4' }
    else if d == 5 { '5' }
    else if d == 6 { '6' }
    else if d == 7 { '7' }
    else if d == 8 { '8' }
    else { '9' }
}

/// Appends the decimal representation of `n` to `s`.
pub fn push_decimal(s: &mut String, n: u128)
    ensures
        final(s)@ == old(s)@ + decimal(n as nat),
    decreases n,
{
    if n < 10 {
        push_char(s, digit_to_char(n));
        assert(decimal(n as nat) =~= seq![digit_char(n as nat)]);
    } else {
        push_decimal(s, n / 10);
        push_char(s, digit_to_char(n % 10));
        assert(decimal(n as nat) =~= decimal((n / 10) as nat).push(digit_char((n % 10) as nat)));
    }
}

/// The decimal representation of `n` as a string.
pub fn decimal_string(n: u128) -> (s: String)
    ensures
        s@ == decimal(n as nat),
{
    let mut s = String::new();
    push_decimal(&mut s, n);
    assert(s@ =~= decimal(n as nat));
    s
}

} // verus!

verus! {

/// `v[..a] ++ ins ++ v[b..]`: the characters of `v` with `v[a..b]` replaced by `ins`.
pub fn splice_chars(v: &Vec<char>, a: usize, b: usize, ins: &Vec<char>) -> (r: Vec<char>)
    requires
        a <= b <= v@.len(),
    ensures
        r@ == v@.take(a as int) + ins@ + v@.skip(b as int),
{
    let mut r: Vec<char> = Vec::new();
    let mut i: usize = 0;
    while i < a
        invariant
            i <= a <= b <= v@.len(),
            r@ == v@.take(i as int),
        decreases a - i,
    {
        r.push(v[i]);
        i = i + 1;
        assert(r@ =~= v@.take(i as int));
    }
    let mut j: usize = 0;
    while j < ins.len()
        invariant
            j <= ins@.len(),
            r@ == v@.take(a as int) + ins@.take(j as int),
        decreases ins.len() - j,
    {
        r.push(ins[j]);
        j = j + 1;
        assert(r@ =~= v@.take(a as int) + ins@.take(j as int));
    }
    assert(ins@.take(ins@.len() as int) =~= ins@);
    let mut k: usize = b;
    while k < v.len()
        invariant
            b <= k <= v@.len(),
            r@ == v@.take(a as int) + ins@ + v@.subrange(b as int, k as int),
        decreases v.len() - k,
    {
        r.push(v[k]);
        k = k + 1;
        assert(r@ =~= v@.take(a as int) + ins@ + v@.subrange(b as int, k as int));
    }
    assert(v@.subrange(b as int, v@.len() as int) =~= v@.skip(b as int));
    r
}

} // verus!

verus! {

proof fn lemma_encode_append(a: Seq<char>, b: Seq<char>)
    ensures
        vstd::utf8::encode_utf8(a + b) == vstd::utf8::encode_utf8(a) + vstd::utf8::encode_utf8(b),
    decreases a.len(),
{
    if a.len() == 0 {
        assert(a + b =~= b);
        assert(vstd::utf8::encode_utf8(a) =~= Seq::<u8>::empty());
        assert(Seq::<u8>::empty() + vstd::utf8::encode_utf8(b) =~= vstd::utf8::encode_utf8(b));
    } else {
        lemma_encode_append(a.drop_first(), b);
        assert((a + b).drop_first() =~= a.drop_first() + b);
        assert((a + b)[0] == a[0]);
        let e = vstd::utf8::encode_scalar(a[0] as u32);
        assert(e + (vstd::utf8::encode_utf8(a.drop_first()) + vstd::utf8::encode_utf8(b)) =~= (e
            + vstd::utf8::encode_utf8(a.drop_first())) + vstd::utf8::encode_utf8(b));
    }
}

proof fn lemma_scalar_len(c: char)
    ensures
        vstd::utf8::encode_scalar(c as u32).len() == utf8_len(c),
{
    broadcast use vstd::utf8::char_is_scalar;
    assert(vstd::utf8::is_scalar(c as u32));
}

/// The UTF-8 encoding of a character sequence has `byte_len` bytes.
pub proof fn lemma_encoded_len(s: Seq<char>)
    ensures
        vstd::utf8::encode_utf8(s).len() == byte_len(s),
    decreases s.len(),
{
    if s.len() == 0 {
        assert(vstd::utf8::encode_utf8(s) =~= Seq::<u8>::empty());
    } else {
        lemma_encoded_len(s.drop_last());
        assert(s.drop_last() + seq![s.last()] =~= s);
        lemma_encode_append(s.drop_last(), seq![s.last()]);
        let one = seq![s.last()];
        assert(one.drop_first() =~= Seq::<char>::empty());
        assert(vstd::utf8::encode_utf8(one.drop_first()) =~= Seq::<u8>::empty());
        assert(vstd::utf8::encode_utf8(one) =~= vstd::utf8::encode_scalar(s.last() as u32));
        lemma_scalar_len(s.last());
    }
}

/// Calls `str::len`: the number of bytes of the UTF-8 encoding. The standard library
/// documents that a string's size never exceeds `isize::MAX` bytes, so the count is exact.
#[verifier::external_body]
pub(crate) fn str_byte_len(s: &str) -> (n: usize)
    ensures
        n == byte_len(s@),
        n <= isize::MAX,
{
    s.len()
}

/// The byte length of the first `k` characters grows by the next character's length.
pub proof fn lemma_byte_len_step(s: Seq<char>, k: int)
    requires
        0 <= k < s.len(),
    ensures
        byte_len(s.take(k + 1)) == byte_len(s.take(k)) + utf8_len(s[k]),
{
    assert(s.take(k + 1).drop_last() =~= s.take(k));
}


/// What `str::get(pos..)` gives, in characters: the text from byte `pos` on when `pos` falls
/// on a character boundary within the text, nothing otherwise.
pub open spec fn tail_from_byte(s: Seq<char>, pos: int) -> Option<Seq<char>>
    decreases s.len(),
{
    if pos == 0 {
        Some(s)
    } else if pos < 0 || s.len() == 0 {
        None
    } else {
        tail_from_byte(s.subrange(1, s.len() as int), pos - utf8_len(s[0]))
    }
}

/// The text of `s` from byte `pos` on, if `pos` is a character boundary (`str::get(pos..)`).
pub fn str_tail_from_byte(s: &str, pos: usize) -> (r: Option<String>)
    ensures
        match r {
            Some(t) => tail_from_byte(s@, pos as int) == Some(t@),
            None => tail_from_byte(s@, pos as int) is None,
        },
{
    let v = chars_of(s);
    let mut i: usize = 0;
    let mut b: usize = 0;
    assert(v@.skip(0) =~= v@);
    while i < v.len()
        invariant
            i <= v@.len(),
            b <= pos,
            v@ == s@,
            tail_from_byte(v@.skip(i as int), pos - b) == tail_from_byte(s@, pos as int),
        decreases v@.len() - i,
    {
        if b == pos {
            let t = string_of_range(&v, i, v.len());
            assert(v@.subrange(i as int, v@.len() as int) =~= v@.skip(i as int));
            return Some(t);
        }
        let c = char_len_utf8(v[i]);
        assert(v@.skip(i as int).subrange(1, v@.skip(i as int).len() as int) =~= v@.skip(i + 1));
        if pos - b < c {
            proof {
                reveal_with_fuel(tail_from_byte, 2);
            }
            return None;
        }
        b = b + c;
        i = i + 1;
    }
    if b == pos {
        assert(v@.skip(i as int) =~= Seq::<char>::empty());
        Some(String::new())
    } else {
        None
    }
}


/// The parts one after another, with `sep` between each two (`[String]::join`).
pub open spec fn join_with(parts: Seq<Seq<char>>, sep: Seq<char>) -> Seq<char>
    decreases parts.len(),
{
    if parts.len() == 0 {
        Seq::empty()
    } else if parts.len() == 1 {
        parts[0]
    } else {
        join_with(parts.drop_last(), sep) + sep + parts.last()
    }
}

/// A sequence contains itself.
pub proof fn lemma_contains_self(s: Seq<char>)
    ensures
        contains_seq(s, s),
{
    let z: int = 0;
    assert(s.subrange(z, z + s.len()) =~= s);
}

/// What a sequence contains, it still contains with more put before or after it.
pub proof fn lemma_contains_extend(a: Seq<char>, x: Seq<char>, before: Seq<char>, after: Seq<char>)
    requires
        contains_seq(a, x),
    ensures
        contains_seq(before + a + after, x),
{
    let i = choose|i: int| 0 <= i && i + x.len() <= a.len() && #[trigger] a.subrange(i, i + x.len()) == x;
    let h = before + a + after;
    let j = before.len() + i;
    assert(h.subrange(j, j + x.len()) =~= a.subrange(i, i + x.len()));
}

/// Containment passes through: what `y` contains, anything containing `y` contains.
pub proof fn lemma_contains_trans(h: Seq<char>, y: Seq<char>, z: Seq<char>)
    requires
        contains_seq(h, y),
        contains_seq(y, z),
    ensures
        contains_seq(h, z),
{
    let i = choose|i: int| 0 <= i && i + y.len() <= h.len() && #[trigger] h.subrange(i, i + y.len()) == y;
    let j = choose|j: int| 0 <= j && j + z.len() <= y.len() && #[trigger] y.subrange(j, j + z.len()) == z;
    assert forall|k: int| 0 <= k < z.len() implies #[trigger] h.subrange(i + j, i + j + z.len())[k] == z[k] by {
        assert(h.subrange(i, i + y.len())[j + k] == h[i + j + k]);
        assert(y.subrange(j, j + z.len())[k] == y[j + k]);
    }
    assert(h.subrange(i + j, i + j + z.len()) =~= z);
}

/// Each part appears in the parts joined with any separator.
pub proof fn lemma_join_contains_part(parts: Seq<Seq<char>>, sep: Seq<char>, k: int)
    requires
        0 <= k < parts.len(),
    ensures
        contains_seq(join_with(parts, sep), parts[k]),
    decreases parts.len(),
{
    lemma_contains_self(parts[k]);
    if parts.len() == 1 {
    } else {
        let init = join_with(parts.drop_last(), sep);
        if k == parts.len() - 1 {
            lemma_contains_extend(parts[k], parts[k], init + sep, Seq::empty());
            assert(init + sep + parts[k] + Seq::<char>::empty() =~= join_with(parts, sep));
        } else {
            lemma_join_contains_part(parts.drop_last(), sep, k);
            lemma_contains_extend(init, parts[k], Seq::empty(), sep + parts.last());
            assert(Seq::<char>::empty() + init + (sep + parts.last()) =~= join_with(parts, sep));
        }
    }
}

/// The strings one after another, with `sep` between each two.
pub fn join_strings(parts: &Vec<String>, sep: &str) -> (r: String)
    ensures
        r@ == join_with(parts@.map_values(|p: String| p@), sep@),
{
    let ghost ps = parts@.map_values(|p: String| p@);
    if parts.len() == 0 {
        return String::new();
    }
    let mut r = copy_string(&parts[0]);
    let mut i: usize = 1;
    assert(ps.take(1) =~= seq![ps[0]]);
    while i < parts.len()
        invariant
            1 <= i <= parts@.len(),
            ps == parts@.map_values(|p: String| p@),
            r@ == join_with(ps.take(i as int), sep@),
        decreases parts@.len() - i,
    {
        assert(ps.take(i + 1).drop_last() =~= ps.take(i as int));
        r.append(sep);
        r.append(parts[i].as_str());
        i = i + 1;
    }
    assert(ps.take(parts@.len() as int) =~= ps);
    r
}

/// The number of characters that fill the first `pos` bytes of `s`, when `pos` falls on a
/// character boundary.
pub open spec fn byte_to_index(s: Seq<char>, pos: int) -> Option<int>
    decreases s.len(),
{
    if pos == 0 {
        Some(0)
    } else if pos < 0 || s.len() == 0 {
        None
    } else {
        match byte_to_index(s.subrange(1, s.len() as int), pos - utf8_len(s[0])) {
            Some(k) => Some(k + 1),
            None => None,
        }
    }
}

/// The characters before byte `pos` (`&s[..pos]`); `pos` must fall on a boundary.
pub open spec fn head_at(s: Seq<char>, pos: int) -> Seq<char> {
    match byte_to_index(s, pos) {
        Some(k) => s.take(k),
        None => Seq::empty(),
    }
}

/// The characters before byte `pos` of `s` (`&s[..pos]`).
pub fn head_at_byte(s: &str, pos: usize) -> (r: String)
    requires
        byte_to_index(s@, pos as int) is Some,
    ensures
        r@ == head_at(s@, pos as int),
{
    let v = chars_of(s);
    let mut i: usize = 0;
    let mut b: usize = 0;
    assert(v@.skip(0) =~= v@);
    while b < pos
        invariant
            i <= v@.len(),
            b <= pos,
            v@ == s@,
            match byte_to_index(v@.skip(i as int), pos - b) {
                Some(k) => byte_to_index(s@, pos as int) == Some(k + i),
                None => byte_to_index(s@, pos as int) is None,
            },
            byte_to_index(s@, pos as int) is Some,
        decreases pos - b,
    {
        if i >= v.len() {
            proof {
                assert(v@.skip(i as int).len() == 0);
            }
            assert(false);
            return String::new();
        }
        assert(v@.skip(i as int).subrange(1, v@.skip(i as int).len() as int) =~= v@.skip(i + 1));
        let c = char_len_utf8(v[i]);
        if pos - b < c {
            proof {
                reveal_with_fuel(byte_to_index, 2);
            }
            assert(false);
            return String::new();
        }
        b = b + c;
        i = i + 1;
    }
    let r = string_of_range(&v, 0, i);
    assert(v@.subrange(0, i as int) =~= v@.take(i as int));
    r
}


// ---------------------------------------------------------------------------
// Splitting
// ---------------------------------------------------------------------------

/// The plain values of a list of strings.
pub open spec fn views(v: Seq<String>) -> Seq<Seq<char>> {
    v.map_values(|s: String| s@)
}

/// The pieces of `s` between occurrences of `sep` (`str::split` on a character): one more
/// than the number of separators.
pub open spec fn split_pieces(s: Seq<char>, sep: char) -> Seq<Seq<char>>
    decreases s.len(),
{
    if s.len() == 0 {
        seq![Seq::empty()]
    } else {
        let p = split_pieces(s.drop_last(), sep);
        if s.last() == sep {
            p.push(Seq::empty())
        } else {
            p.update(p.len() - 1, p.last().push(s.last()))
        }
    }
}

pub proof fn lemma_split_pieces_nonempty(s: Seq<char>, sep: char)
    ensures
        split_pieces(s, sep).len() >= 1,
    decreases s.len(),
{
    if s.len() > 0 {
        lemma_split_pieces_nonempty(s.drop_last(), sep);
    }
}

/// Splitting on a character and joining the pieces with it gives back the text.
pub proof fn lemma_split_rejoin(s: Seq<char>, sep: char)
    ensures
        join_with(split_pieces(s, sep), seq![sep]) == s,
    decreases s.len(),
{
    if s.len() > 0 {
        let t = s.drop_last();
        let x = s.last();
        lemma_split_rejoin(t, sep);
        lemma_split_pieces_nonempty(t, sep);
        let p = split_pieces(t, sep);
        if x == sep {
            let q = p.push(Seq::empty());
            assert(q.drop_last() =~= p);
            assert(join_with(q, seq![sep]) =~= t + seq![sep] + Seq::empty());
            assert(t + seq![sep] + Seq::<char>::empty() =~= s);
        } else {
            let q = p.update(p.len() - 1, p.last().push(x));
            if p.len() == 1 {
                assert(q[0] =~= s);
            } else {
                assert(q.drop_last() =~= p.drop_last());
                assert(join_with(q, seq![sep]) =~= join_with(p.drop_last(), seq![sep]) + seq![sep] + p.last().push(x));
                assert(join_with(p.drop_last(), seq![sep]) + seq![sep] + p.last().push(x) =~= t.push(x));
                assert(t.push(x) =~= s);
            }
        }
    }
}

/// The pieces of `s` between occurrences of `sep` (see `split_pieces`).
pub fn split_char(s: &str, sep: char) -> (r: Vec<String>)
    ensures
        views(r@) == split_pieces(s@, sep),
{
    let v = chars_of(s);
    let mut done: Vec<String> = Vec::new();
    let mut cur = String::new();
    let mut i: usize = 0;
    assert(v@.take(0) =~= Seq::<char>::empty());
    assert(views(done@).push(cur@) =~= seq![Seq::<char>::empty()]);
    while i < v.len()
        invariant
            i <= v@.len(),
            v@ == s@,
            views(done@).push(cur@) == split_pieces(v@.take(i as int), sep),
        decreases v@.len() - i,
    {
        let ghost t = v@.take(i + 1);
        assert(t.drop_last() =~= v@.take(i as int));
        assert(t.last() == v@[i as int]);
        proof {
            lemma_split_pieces_nonempty(v@.take(i as int), sep);
        }
        if v[i] == sep {
            let ghost before = done@;
            let piece = cur;
            done.push(piece);
            cur = String::new();
            assert(views(done@).push(cur@) =~= views(before).push(piece@).push(Seq::empty()));
        } else {
            let ghost old_cur = cur@;
            push_char(&mut cur, v[i]);
            let ghost p = split_pieces(v@.take(i as int), sep);
            assert(views(done@).push(cur@) =~= p.update(p.len() - 1, p.last().push(v@[i as int])));
        }
        i = i + 1;
    }
    assert(v@.take(v@.len() as int) =~= v@);
    done.push(cur);
    done
}


// ---------------------------------------------------------------------------
// Prefixes and upper-casing
// ---------------------------------------------------------------------------

/// The first `n` characters of `s` (all of `s` when it is shorter).
pub open spec fn first_chars(s: Seq<char>, n: nat) -> Seq<char> {
    if n < s.len() {
        s.take(n as int)
    } else {
        s
    }
}

/// The first `n` characters of `s` (`s.chars().take(n)`).
pub fn take_chars(s: &str, n: usize) -> (r: String)
    ensures
        r@ == first_chars(s@, n as nat),
{
    let v = chars_of(s);
    let k = if n < v.len() { n } else { v.len() };
    let r = string_of_range(&v, 0, k);
    assert(v@.subrange(0, k as int) =~= first_chars(s@, n as nat));
    r
}

/// What `char::to_uppercase` yields for `c`, collected (full Unicode case mapping).
pub uninterp spec fn uppercase_of_char(c: char) -> Seq<char>;

/// Calls `char::to_uppercase` and collects the characters it yields; an ASCII character
/// yields its ASCII upper case (`a` to `z` become `A` to `Z`, the rest stay).
#[verifier::external_body]
pub(crate) fn char_to_uppercase(c: char) -> (r: String)
    ensures
        r@ == uppercase_of_char(c),
        (c as u32) < 0x80 ==> r@ == seq![
            if 0x61 <= (c as u32) && (c as u32) <= 0x7a { ((c as u32) - 32) as char } else { c },
        ],
{
    c.to_uppercase().collect::<String>()
}

// ---------------------------------------------------------------------------
// Words
// ---------------------------------------------------------------------------

/// The words of `s` so far (maximal runs of characters that are not white space), and
/// whether the last character was inside a word.
pub open spec fn words_state(s: Seq<char>) -> (Seq<Seq<char>>, bool)
    decreases s.len(),
{
    if s.len() == 0 {
        (Seq::empty(), false)
    } else {
        let (ws, inside) = words_state(s.drop_last());
        let c = s.last();
        if is_white_space(c) {
            (ws, false)
        } else if inside && ws.len() > 0 {
            (ws.update(ws.len() - 1, ws.last().push(c)), true)
        } else {
            (ws.push(seq![c]), true)
        }
    }
}

/// The words of `s` (`str::split_whitespace`).
pub open spec fn words_of(s: Seq<char>) -> Seq<Seq<char>> {
    words_state(s).0
}

/// Words are never empty and hold no white space.
pub proof fn lemma_words_clean(s: Seq<char>)
    ensures
        words_state(s).1 ==> words_state(s).0.len() > 0,
        forall|i: int| 0 <= i < words_of(s).len() ==> (#[trigger] words_of(s)[i]).len() > 0,
        forall|i: int, k: int| 0 <= i < words_of(s).len() && 0 <= k < words_of(s)[i].len() ==> !is_white_space(
            #[trigger] words_of(s)[i][k],
        ),
    decreases s.len(),
{
    if s.len() > 0 {
        let t = s.drop_last();
        lemma_words_clean(t);
        let ws = words_state(t).0;
        let inside = words_state(t).1;
        let c = s.last();
        let n = words_of(s);
        assert forall|i: int| 0 <= i < n.len() implies (#[trigger] n[i]).len() > 0 by {
            if i < ws.len() {
                assert(words_of(t)[i].len() > 0);
            }
        }
        assert forall|i: int, k: int| 0 <= i < n.len() && 0 <= k < n[i].len() implies !is_white_space(#[trigger] n[i][k]) by {
            if is_white_space(c) {
                assert(!is_white_space(words_of(t)[i][k]));
            } else if inside && ws.len() > 0 {
                if i == ws.len() - 1 && k == ws.last().len() {
                    assert(n[i][k] == c);
                } else {
                    assert(n[i][k] == ws[i][k]);
                    assert(!is_white_space(words_of(t)[i][k]));
                }
            } else if i < ws.len() {
                assert(n[i] == ws[i]);
                assert(!is_white_space(words_of(t)[i][k]));
            } else {
                assert(n[i] == seq![c]);
            }
        }
    }
}

/// The words of `s` (see `words_of`).
pub fn split_words(s: &str) -> (r: Vec<String>)
    ensures
        views(r@) == words_of(s@),
{
    let v = chars_of(s);
    let mut done: Vec<String> = Vec::new();
    let mut cur = String::new();
    let mut inside = false;
    let mut i: usize = 0;
    assert(v@.take(0) =~= Seq::<char>::empty());
    assert(views(done@) =~= Seq::<Seq<char>>::empty());
    while i < v.len()
        invariant
            i <= v@.len(),
            v@ == s@,
            inside == words_state(v@.take(i as int)).1,
            inside ==> views(done@).push(cur@) == words_state(v@.take(i as int)).0,
            !inside ==> views(done@) == words_state(v@.take(i as int)).0 && cur@.len() == 0,
        decreases v@.len() - i,
    {
        let ghost t = v@.take(i + 1);
        assert(t.drop_last() =~= v@.take(i as int));
        assert(t.last() == v@[i as int]);
        let c = v[i];
        if char_is_whitespace(c) {
            if inside {
                let piece = cur;
                done.push(piece);
                cur = String::new();
            }
            inside = false;
        } else {
            let ghost before = views(done@).push(cur@);
            push_char(&mut cur, c);
            if inside {
                assert(views(done@).push(cur@) =~= before.update(before.len() - 1, before.last().push(c)));
            } else {
                assert(cur@ =~= seq![c]);
                assert(views(done@).push(cur@) =~= views(done@).push(seq![c]));
            }
            inside = true;
        }
        i = i + 1;
    }
    assert(v@.take(v@.len() as int) =~= v@);
    if inside {
        done.push(cur);
    }
    done
}
} // verus!
