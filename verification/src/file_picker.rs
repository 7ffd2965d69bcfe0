//! Matching file paths against a typed query, `@path` references in a prompt, and the state of
//! the file picker list. Reading directories and files is left to the caller.
use vstd::prelude::*;
use crate::sorting::{is_stable_sort, stable_sort_indices};
use crate::session_files::{lemma_lex_total, lemma_lex_trans, lex_le, str_le};
use crate::text::{views, str_eq, byte_len, byte_to_index, char_is_whitespace, concat, decimal, head_at, head_at_byte, push_decimal, chars_of, copy_string, is_white_space, lowercase_of, push_char, str_byte_len, str_trim, to_lowercase, trimmed};

verus! {

// ---------------------------------------------------------------------------
// Subsequence matching
// ---------------------------------------------------------------------------

/// `q[i..]` occurs, in order but not necessarily adjacent, in `t[j..]`.
pub open spec fn subseq_from(q: Seq<char>, t: Seq<char>, i: int, j: int) -> bool
    decreases t.len() - j,
{
    if i >= q.len() {
        true
    } else if j >= t.len() {
        false
    } else if t[j] == q[i] {
        subseq_from(q, t, i + 1, j + 1)
    } else {
        subseq_from(q, t, i, j + 1)
    }
}

/// Every character of `q` appears in `t`, in order.
pub open spec fn is_subsequence(q: Seq<char>, t: Seq<char>) -> bool {
    subseq_from(q, t, 0, 0)
}

/// Whether every character of `q` appears in `t`, in order.
pub fn subsequence_of(q: &Vec<char>, t: &Vec<char>) -> (b: bool)
    ensures
        b == is_subsequence(q@, t@),
{
    let mut i: usize = 0;
    let mut j: usize = 0;
    while j < t.len()
        invariant
            i <= q@.len(),
            j <= t@.len(),
            subseq_from(q@, t@, i as int, j as int) == is_subsequence(q@, t@),
        decreases t@.len() - j,
    {
        if i >= q.len() {
            return true;
        }
        if t[j] == q[i] {
            i = i + 1;
        }
        j = j + 1;
    }
    i >= q.len()
}

/// Simple in-order match: all characters of `query` appear in order in `text`.
pub fn substring_match(text: &str, query: &str) -> (b: bool)
    ensures
        b == is_subsequence(query@, text@),
{
    let t = chars_of(text);
    let q = chars_of(query);
    subsequence_of(&q, &t)
}

/// The first position `s` in `start..=last` where `q` occurs contiguously in `t`.
pub open spec fn first_window(t: Seq<char>, q: Seq<char>, start: int, last: int) -> Option<int>
    decreases last + 1 - start,
{
    if start > last {
        None
    } else if start + q.len() <= t.len() && t.subrange(start, start + q.len()) == q {
        Some(start)
    } else {
        first_window(t, q, start + 1, last)
    }
}

/// Where the greedy in-order match of `q[i..]` within `t[j..]` completes.
pub open spec fn subseq_end(q: Seq<char>, t: Seq<char>, i: int, j: int) -> Option<int>
    decreases t.len() - j,
{
    if j >= t.len() || i >= q.len() {
        None
    } else if t[j] == q[i] {
        if i + 1 == q.len() {
            Some(j)
        } else {
            subseq_end(q, t, i + 1, j + 1)
        }
    } else {
        subseq_end(q, t, i, j + 1)
    }
}

/// The position used to rank a match: where `q` first occurs contiguously in `t`; else where
/// the in-order match completes; else the byte length of `t`.
pub open spec fn match_position(t: Seq<char>, q: Seq<char>) -> int {
    if q.len() == 0 {
        0
    } else {
        let last = if t.len() >= q.len() { t.len() - q.len() } else { 0 };
        match first_window(t, q, 0, last) {
            Some(s) => s,
            None => match subseq_end(q, t, 0, 0) {
                Some(e) => e,
                None => byte_len(t) as int,
            },
        }
    }
}

fn window_at(t: &Vec<char>, q: &Vec<char>, start: usize) -> (b: bool)
    ensures
        b == (start + q@.len() <= t@.len() && t@.subrange(start as int, start + q@.len()) == q@),
{
    if start > t.len() || t.len() - start < q.len() {
        return false;
    }
    let mut k: usize = 0;
    while k < q.len()
        invariant
            k <= q@.len(),
            start + q@.len() <= t.len(),
            forall|m: int| 0 <= m < k ==> t@[start + m] == #[trigger] q@[m],
        decreases q@.len() - k,
    {
        if t[start + k] != q[k] {
            assert(t@.subrange(start as int, start + q@.len())[k as int] != q@[k as int]);
            return false;
        }
        k = k + 1;
    }
    assert(t@.subrange(start as int, start + q@.len()) =~= q@);
    true
}

/// The ranking position of `query` in `text` (see `match_position`).
pub fn first_match_pos(text: &str, query: &str) -> (p: usize)
    ensures
        p == match_position(text@, query@),
{
    let t = chars_of(text);
    let q = chars_of(query);
    if q.len() == 0 {
        return 0;
    }
    let last = if t.len() >= q.len() {
        t.len() - q.len()
    } else {
        0
    };
    let mut start: usize = 0;
    while start <= last
        invariant
            q@.len() > 0,
            t@ == text@,
            q@ == query@,
            last == (if t@.len() >= q@.len() { t@.len() - q@.len() } else { 0int }),
            last < usize::MAX,
            start <= last + 1,
            first_window(t@, q@, start as int, last as int) == first_window(t@, q@, 0, last as int),
        decreases last + 1 - start,
    {
        if window_at(&t, &q, start) {
            return start;
        }
        start = start + 1;
    }
    assert(first_window(t@, q@, 0, last as int) is None);
    let mut qi: usize = 0;
    let mut ti: usize = 0;
    while ti < t.len()
        invariant
            qi < q@.len(),
            ti <= t@.len(),
            t@ == text@,
            q@ == query@,
            last == (if t@.len() >= q@.len() { t@.len() - q@.len() } else { 0int }),
            first_window(t@, q@, 0, last as int) is None,
            subseq_end(q@, t@, qi as int, ti as int) == subseq_end(q@, t@, 0, 0),
        decreases t@.len() - ti,
    {
        if t[ti] == q[qi] {
            if qi == q.len() - 1 {
                return ti;
            }
            qi = qi + 1;
        }
        ti = ti + 1;
    }
    str_byte_len(text)
}

// ---------------------------------------------------------------------------
// Ranking files against a query
// ---------------------------------------------------------------------------

/// The ranking key of a file: match position in its lower-cased form, then byte length.
pub open spec fn file_key(f: Seq<char>, q: Seq<char>) -> (int, int) {
    (match_position(lowercase_of(f), lowercase_of(q)), byte_len(f) as int)
}

/// `a` ranks no later than `b`.
pub open spec fn key_le(a: (int, int), b: (int, int)) -> bool {
    a.0 < b.0 || (a.0 == b.0 && a.1 <= b.1)
}

/// Files matching `q` (in-order match of the lower-cased forms), in the order given.
pub open spec fn matching_files(fs: Seq<Seq<char>>, q: Seq<char>) -> Seq<Seq<char>>
    decreases fs.len(),
{
    if fs.len() == 0 {
        Seq::empty()
    } else {
        let rest = matching_files(fs.drop_last(), q);
        if is_subsequence(lowercase_of(q), lowercase_of(fs.last())) {
            rest.push(fs.last())
        } else {
            rest
        }
    }
}

/// The ranking order on the entries of `ms`, by index.
pub open spec fn rank_order(ms: Seq<Seq<char>>, q: Seq<char>) -> spec_fn(int, int) -> bool {
    |i: int, j: int| key_le(file_key(ms[i], q), file_key(ms[j], q))
}

/// `r` is `ms` reordered by ranking key, ties in the order given.
pub open spec fn ranked_files(ms: Seq<Seq<char>>, q: Seq<char>, r: Seq<Seq<char>>) -> bool {
    exists|perm: Seq<usize>|
        #[trigger] is_stable_sort(rank_order(ms, q), ms.len() as int, perm) && r.len() == perm.len()
            && forall|k: int| 0 <= k < perm.len() ==> #[trigger] r[k] == ms[perm[k] as int]
}

/// With an empty query, the first 50 files; otherwise the files whose lower-cased form
/// contains the lower-cased query in order, best match first (earlier match position, then
/// shorter path; ties keep their order).
pub fn fuzzy_match(files: &Vec<String>, query: &str) -> (r: Vec<String>)
    ensures
        query@.len() == 0 ==> views(r@) == views(files@).take(
            if files@.len() < 50 { files@.len() as int } else { 50 },
        ),
        query@.len() > 0 ==> ranked_files(matching_files(views(files@), query@), query@, views(r@)),
{
    if query.unicode_len() == 0 {
        let n = if files.len() < 50 {
            files.len()
        } else {
            50
        };
        let mut r: Vec<String> = Vec::new();
        let mut i: usize = 0;
        while i < n
            invariant
                n <= files@.len(),
                i <= n,
                views(r@) == views(files@).take(i as int),
            decreases n - i,
        {
            let ghost before = r@;
            r.push(copy_string(&files[i]));
            proof {
                assert(views(r@) =~= views(before).push(files@[i as int]@));
                assert(views(files@).take(i + 1) =~= views(files@).take(i as int).push(files@[i as int]@));
            }
            i = i + 1;
        }
        return r;
    }
    let ql = to_lowercase(query);
    let qv = chars_of(ql.as_str());
    let ghost fs = views(files@);
    // matching files, with their keys
    let mut ms: Vec<String> = Vec::new();
    let mut keys: Vec<(usize, usize)> = Vec::new();
    let mut i: usize = 0;
    while i < files.len()
        invariant
            i <= files@.len(),
            fs == views(files@),
            qv@ == lowercase_of(query@),
            ql@ == lowercase_of(query@),
            views(ms@) == matching_files(fs.take(i as int), query@),
            keys@.len() == ms@.len(),
            forall|k: int| 0 <= k < keys@.len() ==> (keys@[k].0 as int, keys@[k].1 as int) == #[trigger] file_key(ms@[k]@, query@),
        decreases files@.len() - i,
    {
        let fl = to_lowercase(files[i].as_str());
        let fv = chars_of(fl.as_str());
        proof {
            assert(fs.take(i + 1).drop_last() =~= fs.take(i as int));
            assert(fs.take(i + 1).last() == files@[i as int]@);
        }
        if subsequence_of(&qv, &fv) {
            let pos = first_match_pos(fl.as_str(), ql.as_str());
            let blen = str_byte_len(files[i].as_str());
            let ghost before = ms@;
            ms.push(copy_string(&files[i]));
            keys.push((pos, blen));
            proof {
                assert(views(ms@) =~= views(before).push(files@[i as int]@));
            }
        }
        i = i + 1;
    }
    proof {
        assert(fs.take(files@.len() as int) =~= fs);
    }
    let ghost msv = views(ms@);
    let ghost rel = rank_order(msv, query@);
    let n = ms.len();
    let le = |a: usize, b: usize| -> (r: bool)
        requires
            a < keys@.len(),
            b < keys@.len(),
        ensures
            r == ((keys@[a as int].0 as int) < (keys@[b as int].0 as int) || ((keys@[a as int].0 as int)
                == (keys@[b as int].0 as int) && (keys@[a as int].1 as int) <= (keys@[b as int].1 as int))),
        {
            let ka = keys[a];
            let kb = keys[b];
            ka.0 < kb.0 || (ka.0 == kb.0 && ka.1 <= kb.1)
        };
    proof {
        assert forall|a: usize, b: usize, r: bool| a < n && b < n && #[trigger] le.ensures((a, b), r) implies r == rel(a as int, b as int) by {
            assert(msv[a as int] == ms@[a as int]@);
            assert(msv[b as int] == ms@[b as int]@);
        }
    }
    let perm = stable_sort_indices(n, le, Ghost(rel));
    let mut r: Vec<String> = Vec::new();
    let mut k: usize = 0;
    while k < n
        invariant
            n == ms@.len(),
            perm@.len() == n,
            forall|j: int| 0 <= j < perm@.len() ==> #[trigger] perm@[j] < n,
            k <= n,
            r@.len() == k,
            forall|j: int| 0 <= j < k ==> #[trigger] r@[j]@ == ms@[perm@[j] as int]@,
        decreases n - k,
    {
        r.push(copy_string(&ms[perm[k]]));
        k = k + 1;
    }
    proof {
        assert(is_stable_sort(rel, n as int, perm@));
        assert forall|j: int| 0 <= j < perm@.len() implies #[trigger] views(r@)[j] == msv[perm@[j] as int] by {}
    }
    r
}

// ---------------------------------------------------------------------------
// `@path` references
// ---------------------------------------------------------------------------

/// The prompt text with `@path` references taken out, and the paths: an `@` followed by
/// non-white-space characters is a reference; a lone `@` stays in the text.
pub open spec fn refs_from(s: Seq<char>, i: int, text: Seq<char>, paths: Seq<Seq<char>>) -> (Seq<char>, Seq<Seq<char>>)
    decreases s.len() - i,
{
    if i < 0 || i >= s.len() {
        (text, paths)
    } else if s[i] == '@' {
        let end = word_end(s, i + 1);
        proof {
            lemma_word_end(s, i + 1);
        }
        if end == i + 1 {
            refs_from(s, i + 1, text.push('@'), paths)
        } else {
            refs_from(s, end, text, paths.push(s.subrange(i + 1, end)))
        }
    } else {
        refs_from(s, i + 1, text.push(s[i]), paths)
    }
}

/// The end of the run of non-white-space characters starting at `i`.
pub open spec fn word_end(s: Seq<char>, i: int) -> int
    decreases s.len() - i,
{
    if 0 <= i < s.len() && !is_white_space(s[i]) {
        word_end(s, i + 1)
    } else {
        i
    }
}

pub proof fn lemma_word_end(s: Seq<char>, i: int)
    requires
        0 <= i <= s.len(),
    ensures
        i <= word_end(s, i) <= s.len(),
    decreases s.len() - i,
{
    if i < s.len() && !is_white_space(s[i]) {
        lemma_word_end(s, i + 1);
    }
}

/// Splits a prompt into the text without its `@path` references (trimmed) and the referenced
/// paths, in order. Reading the referenced files is left to the caller.
pub fn split_file_references(text: &str) -> (r: (String, Vec<String>))
    ensures
        r.0@ == trimmed(refs_from(text@, 0, Seq::empty(), Seq::empty()).0),
        views(r.1@) == refs_from(text@, 0, Seq::empty(), Seq::empty()).1,
{
    let v = chars_of(text);
    let mut out = String::new();
    let mut paths: Vec<String> = Vec::new();
    let mut i: usize = 0;
    proof {
        assert(views(paths@) =~= Seq::<Seq<char>>::empty());
        assert(out@ =~= Seq::<char>::empty());
    }
    while i < v.len()
        invariant
            v@ == text@,
            i <= v@.len(),
            refs_from(v@, i as int, out@, views(paths@)) == refs_from(text@, 0, Seq::empty(), Seq::empty()),
        decreases v@.len() - i,
    {
        if v[i] == '@' {
            proof {
                lemma_word_end(v@, i + 1);
            }
            let start = i + 1;
            let mut end = start;
            while end < v.len() && !char_is_whitespace(v[end])
                invariant
                    start <= end <= v@.len(),
                    word_end(v@, end as int) == word_end(v@, start as int),
                decreases v@.len() - end,
            {
                end = end + 1;
            }
            if end == start {
                push_char(&mut out, '@');
                i = i + 1;
            } else {
                let p = crate::text::string_of_range(&v, start, end);
                let ghost before = paths@;
                paths.push(p);
                proof {
                    assert(views(paths@) =~= views(before).push(v@.subrange(start as int, end as int)));
                }
                i = end;
            }
        } else {
            push_char(&mut out, v[i]);
            i = i + 1;
        }
    }
    let t = str_trim(out.as_str());
    (t, paths)
}

/// A file referenced from a prompt, with what was read of it.
pub struct ParsedFileRef {
    pub path: String,
    pub content: String,
}

/// The most bytes of a referenced file passed on whole.
pub const MAX_CONTENT_SIZE: usize = 51200;

/// The path read for a reference: the path itself where it exists, else under `cwd`.
pub fn resolve_reference_path(path: &str, cwd: &str, exists: bool) -> (r: String)
    ensures
        r@ == (if exists { path@ } else { cwd@ + "/"@ + path@ }),
{
    if exists {
        String::from_str(path)
    } else {
        crate::text::concat3(cwd, "/", path)
    }
}

/// What is passed on of a file's contents: the contents, or, past `MAX_CONTENT_SIZE` bytes,
/// a notice with the size followed by the first `MAX_CONTENT_SIZE` bytes.
pub open spec fn bounded(content: Seq<char>) -> Seq<char> {
    if byte_len(content) > MAX_CONTENT_SIZE {
        "[File too large: "@ + decimal(byte_len(content)) + " bytes (max 51200)]\n"@
            + head_at(content, MAX_CONTENT_SIZE as int) + "\n... (truncated)"@
    } else {
        content
    }
}

/// The contents of a read file as passed on (see `bounded`). Cutting must fall on a
/// character boundary.
pub fn bounded_content(content: &str) -> (r: String)
    requires
        byte_len(content@) > MAX_CONTENT_SIZE ==> (byte_to_index(content@, MAX_CONTENT_SIZE as int) is Some),
    ensures
        r@ == bounded(content@),
{
    let n = str_byte_len(content);
    if n > MAX_CONTENT_SIZE {
        let mut r = String::from_str("[File too large: ");
        push_decimal(&mut r, n as u128);
        let head = head_at_byte(content, MAX_CONTENT_SIZE);
        let mut out = concat(r.as_str(), " bytes (max 51200)]\n");
        out.append(head.as_str());
        out.append("\n... (truncated)");
        out
    } else {
        String::from_str(content)
    }
}

// ---------------------------------------------------------------------------
// What a directory scan keeps
// ---------------------------------------------------------------------------

/// The deepest level below the root that a scan reads.
pub const MAX_SCAN_DEPTH: usize = 10;

/// The most files a scan lists.
pub const MAX_SCAN_FILES: usize = 500;

/// Directories a scan does not enter.
pub open spec fn excluded_dir(name: Seq<char>) -> bool {
    name == ".git"@ || name == "node_modules"@ || name == "target"@ || name == ".venv"@
}

/// Whether a scan skips the directory named `name`.
pub fn is_excluded_dir(name: &str) -> (b: bool)
    ensures
        b == excluded_dir(name@),
{
    str_eq(name, ".git") || str_eq(name, "node_modules") || str_eq(name, "target") || str_eq(name, ".venv")
}

/// Lower-case file extensions of files that cannot be referenced as text.
pub open spec fn binary_ext(e: Seq<char>) -> bool {
    e == "png"@
        || e == "jpg"@
        || e == "jpeg"@
        || e == "gif"@
        || e == "bmp"@
        || e == "ico"@
        || e == "tiff"@
        || e == "webp"@
        || e == "svg"@
        || e == "exe"@
        || e == "dll"@
        || e == "so"@
        || e == "dylib"@
        || e == "wasm"@
        || e == "o"@
        || e == "a"@
        || e == "lib"@
        || e == "pyc"@
        || e == "pyo"@
        || e == "class"@
        || e == "jar"@
        || e == "war"@
        || e == "ear"@
        || e == "zip"@
        || e == "tar"@
        || e == "gz"@
        || e == "bz2"@
        || e == "xz"@
        || e == "7z"@
        || e == "rar"@
        || e == "pdf"@
        || e == "doc"@
        || e == "docx"@
        || e == "xls"@
        || e == "xlsx"@
        || e == "ppt"@
        || e == "pptx"@
        || e == "mp3"@
        || e == "mp4"@
        || e == "avi"@
        || e == "mov"@
        || e == "mkv"@
        || e == "flac"@
        || e == "ogg"@
        || e == "wav"@
        || e == "ttf"@
        || e == "otf"@
        || e == "woff"@
        || e == "woff2"@
        || e == "eot"@
        || e == "lock"@
        || e == "db"@
        || e == "sqlite"@
}

fn lower_binary_ext(e: &str) -> (b: bool)
    ensures
        b == binary_ext(e@),
{
    str_eq(e, "png")
        || str_eq(e, "jpg")
        || str_eq(e, "jpeg")
        || str_eq(e, "gif")
        || str_eq(e, "bmp")
        || str_eq(e, "ico")
        || str_eq(e, "tiff")
        || str_eq(e, "webp")
        || str_eq(e, "svg")
        || str_eq(e, "exe")
        || str_eq(e, "dll")
        || str_eq(e, "so")
        || str_eq(e, "dylib")
        || str_eq(e, "wasm")
        || str_eq(e, "o")
        || str_eq(e, "a")
        || str_eq(e, "lib")
        || str_eq(e, "pyc")
        || str_eq(e, "pyo")
        || str_eq(e, "class")
        || str_eq(e, "jar")
        || str_eq(e, "war")
        || str_eq(e, "ear")
        || str_eq(e, "zip")
        || str_eq(e, "tar")
        || str_eq(e, "gz")
        || str_eq(e, "bz2")
        || str_eq(e, "xz")
        || str_eq(e, "7z")
        || str_eq(e, "rar")
        || str_eq(e, "pdf")
        || str_eq(e, "doc")
        || str_eq(e, "docx")
        || str_eq(e, "xls")
        || str_eq(e, "xlsx")
        || str_eq(e, "ppt")
        || str_eq(e, "pptx")
        || str_eq(e, "mp3")
        || str_eq(e, "mp4")
        || str_eq(e, "avi")
        || str_eq(e, "mov")
        || str_eq(e, "mkv")
        || str_eq(e, "flac")
        || str_eq(e, "ogg")
        || str_eq(e, "wav")
        || str_eq(e, "ttf")
        || str_eq(e, "otf")
        || str_eq(e, "woff")
        || str_eq(e, "woff2")
        || str_eq(e, "eot")
        || str_eq(e, "lock")
        || str_eq(e, "db")
        || str_eq(e, "sqlite")
}

/// Whether a scan skips a file with extension `ext` (compared in lower case).
pub fn is_binary_extension(ext: &str) -> (b: bool)
    ensures
        b == binary_ext(lowercase_of(ext@)),
{
    let lower = to_lowercase(ext);
    lower_binary_ext(lower.as_str())
}

/// Whether a scan reads a directory at `depth` below the root with `found` files listed.
pub fn scan_continues(depth: usize, found: usize) -> (b: bool)
    ensures
        b == (depth <= MAX_SCAN_DEPTH && found < MAX_SCAN_FILES),
{
    depth <= MAX_SCAN_DEPTH && found < MAX_SCAN_FILES
}

/// Path `i` comes no later than path `j` in the order of strings.
pub open spec fn path_order(ps: Seq<Seq<char>>) -> spec_fn(int, int) -> bool {
    |i: int, j: int| lex_le(ps[i], ps[j])
}

/// The paths in the order of strings (equal ones keep their order).
pub fn sort_paths(files: &Vec<String>) -> (r: Vec<String>)
    ensures
        exists|perm: Seq<usize>|
            #[trigger] is_stable_sort(path_order(views(files@)), files@.len() as int, perm)
                && r@.len() == perm.len()
                && forall|k: int| 0 <= k < perm.len() ==> r@[k]@ == files@[perm[k] as int]@,
        forall|i: int, j: int| 0 <= i < j < r@.len() ==> lex_le(r@[i]@, r@[j]@),
{
    let n = files.len();
    let ghost ps = views(files@);
    let ghost rel = path_order(ps);
    let le = |a: usize, b: usize| -> (r: bool)
        requires
            a < files@.len(),
            b < files@.len(),
        ensures
            r == lex_le(files@[a as int]@, files@[b as int]@),
        {
            str_le(files[a].as_str(), files[b].as_str())
        };
    proof {
        assert forall|a: int, b: int| 0 <= a < n && 0 <= b < n implies #[trigger] rel(a, b) || rel(b, a) by {
            lemma_lex_total(ps[a], ps[b]);
        }
        assert forall|a: int, b: int, c: int|
            0 <= a < n && 0 <= b < n && 0 <= c < n && #[trigger] rel(a, b) && #[trigger] rel(b, c) implies rel(a, c) by {
            lemma_lex_trans(ps[a], ps[b], ps[c]);
        }
    }
    let perm = stable_sort_indices(n, le, Ghost(rel));
    let mut out: Vec<String> = Vec::new();
    let mut k: usize = 0;
    while k < n
        invariant
            n == files@.len(),
            is_stable_sort(rel, n as int, perm@),
            rel == path_order(views(files@)),
            k <= n,
            out@.len() == k,
            forall|j: int| 0 <= j < k ==> #[trigger] out@[j]@ == files@[perm@[j] as int]@,
        decreases n - k,
    {
        out.push(copy_string(&files[perm[k]]));
        k = k + 1;
    }
    proof {
        assert forall|i: int, j: int| 0 <= i < j < out@.len() implies lex_le(out@[i]@, out@[j]@) by {
            assert(rel(perm@[i] as int, perm@[j] as int));
        }
    }
    out
}

// ---------------------------------------------------------------------------
// The picker
// ---------------------------------------------------------------------------

/// Rows of the picker list shown at once.
pub const MAX_VISIBLE: usize = 10;

/// The state of the file picker list.
pub struct FilePickerState {
    /// Whether the file picker is currently visible.
    pub open: bool,
    /// All scanned files (relative paths).
    pub files: Vec<String>,
    /// Currently filtered/matched files.
    pub matches: Vec<String>,
    /// Current query text (text after @).
    pub query: String,
    /// Current selection index.
    pub idx: usize,
    /// Scroll offset for the picker list.
    pub scroll: usize,
    /// The character position in the input where @ was typed.
    pub at_pos: usize,
}

/// The scroll offset that keeps `idx` within a window of `MAX_VISIBLE` rows.
pub open spec fn scrolled_to(idx: usize, scroll: usize) -> usize {
    if idx < scroll {
        idx
    } else if idx >= scroll + MAX_VISIBLE {
        (idx - MAX_VISIBLE + 1) as usize
    } else {
        scroll
    }
}

impl FilePickerState {
    /// A closed picker with nothing listed.
    pub fn new() -> (s: Self)
        ensures
            !s.open,
            s.files@.len() == 0,
            s.matches@.len() == 0,
            s.query@.len() == 0,
            s.idx == 0 && s.scroll == 0 && s.at_pos == 0,
    {
        FilePickerState {
            open: false,
            files: Vec::new(),
            matches: Vec::new(),
            query: String::new(),
            idx: 0,
            scroll: 0,
            at_pos: 0,
        }
    }

    /// Opens the picker over `files` (the scan of the working directory), for an `@` typed at
    /// character `at_pos`: the query is empty and the first 50 files are listed.
    pub fn open(&mut self, files: Vec<String>, at_pos: usize)
        ensures
            final(self).open,
            final(self).at_pos == at_pos,
            final(self).query@.len() == 0,
            final(self).idx == 0 && final(self).scroll == 0,
            final(self).files == files,
            views(final(self).matches@) == views(files@).take(
                if files@.len() < 50 { files@.len() as int } else { 50 },
            ),
    {
        self.open = true;
        self.at_pos = at_pos;
        self.query = String::new();
        self.idx = 0;
        self.scroll = 0;
        self.files = files;
        proof {
            reveal_strlit("");
        }
        self.matches = fuzzy_match(&self.files, "");
    }

    /// Closes the picker and forgets its lists and query.
    pub fn close(&mut self)
        ensures
            !final(self).open,
            final(self).files@.len() == 0,
            final(self).matches@.len() == 0,
            final(self).query@.len() == 0,
            final(self).idx == old(self).idx && final(self).scroll == old(self).scroll,
            final(self).at_pos == old(self).at_pos,
    {
        self.open = false;
        self.files = Vec::new();
        self.matches = Vec::new();
        self.query = String::new();
    }

    /// Lists the files matching the current query and selects the first.
    pub fn update_query(&mut self)
        ensures
            old(self).query@.len() == 0 ==> views(final(self).matches@) == views(old(self).files@).take(
                if old(self).files@.len() < 50 { old(self).files@.len() as int } else { 50 },
            ),
            old(self).query@.len() > 0 ==> ranked_files(
                matching_files(views(old(self).files@), old(self).query@),
                old(self).query@,
                views(final(self).matches@),
            ),
            final(self).idx == 0 && final(self).scroll == 0,
            final(self).files == old(self).files,
            final(self).query == old(self).query,
            final(self).open == old(self).open,
    {
        self.matches = fuzzy_match(&self.files, self.query.as_str());
        self.idx = 0;
        self.scroll = 0;
    }

    /// Selects the previous match, wrapping to the last.
    pub fn cursor_up(&mut self)
        ensures
            final(self).matches == old(self).matches,
            old(self).matches@.len() == 0 ==> final(self).idx == old(self).idx && final(self).scroll
                == old(self).scroll,
            old(self).matches@.len() > 0 ==> ({
                let i = if old(self).idx == 0 {
                    (old(self).matches@.len() - 1) as usize
                } else {
                    (old(self).idx - 1) as usize
                };
                final(self).idx == i && final(self).scroll == scrolled_to(i, old(self).scroll)
            }),
    {
        if self.matches.len() == 0 {
            return;
        }
        if self.idx == 0 {
            self.idx = self.matches.len() - 1;
        } else {
            self.idx = self.idx - 1;
        }
        self.ensure_visible();
    }

    /// Selects the next match, wrapping to the first.
    pub fn cursor_down(&mut self)
        requires
            old(self).idx < usize::MAX,
        ensures
            final(self).matches == old(self).matches,
            old(self).matches@.len() == 0 ==> final(self).idx == old(self).idx && final(self).scroll
                == old(self).scroll,
            old(self).matches@.len() > 0 ==> ({
                let i = ((old(self).idx + 1) % (old(self).matches@.len() as int)) as usize;
                final(self).idx == i && final(self).scroll == scrolled_to(i, old(self).scroll)
            }),
    {
        if self.matches.len() == 0 {
            return;
        }
        self.idx = (self.idx + 1) % self.matches.len();
        self.ensure_visible();
    }

    /// The selected file, if any.
    pub fn selected(&self) -> (r: Option<&str>)
        ensures
            self.idx < self.matches@.len() ==> (r matches Some(s) && s@ == self.matches@[self.idx as int]@),
            self.idx >= self.matches@.len() ==> r is None,
    {
        if self.idx < self.matches.len() {
            Some(self.matches[self.idx].as_str())
        } else {
            None
        }
    }

    /// The selected file as an `@` reference.
    pub fn selected_reference(&self) -> (r: Option<String>)
        ensures
            self.idx < self.matches@.len() ==> (r matches Some(s) && s@ == seq!['@'] + self.matches@[self.idx as int]@),
            self.idx >= self.matches@.len() ==> r is None,
    {
        match self.selected() {
            Some(p) => {
                proof {
                    reveal_strlit("@");
                }
                Some(crate::text::concat("@", p))
            },
            None => None,
        }
    }

    fn ensure_visible(&mut self)
        ensures
            final(self).scroll == scrolled_to(old(self).idx, old(self).scroll),
            final(self).idx == old(self).idx,
            final(self).matches == old(self).matches,
    {
        if self.idx < self.scroll {
            self.scroll = self.idx;
        } else if self.idx - self.scroll >= MAX_VISIBLE {
            self.scroll = self.idx - MAX_VISIBLE + 1;
        }
    }
}

} // verus!
