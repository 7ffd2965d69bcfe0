//! Frecency: how often and how recently a piece of text was used.
//!
//! An entry's score is `frequency * 30 / d`, where `d` is the number of days since its last
//! use clamped to `[1, 30]`. Scores are compared exactly, as rationals, by cross-multiplying.
use vstd::prelude::*;
use crate::sorting::{is_stable_sort, stable_sort_indices};
use crate::text::{copy_string, has_prefix, is_blank, lemma_blank_iff_trim_empty, lowercase_of, chars_of, seq_starts_with, str_eq, str_trim, to_lowercase, trimmed};

verus! {

/// Declares `std::path::PathBuf` so that a store can carry the file it is saved to.
#[verifier::external_type_specification]
#[verifier::external_body]
pub struct ExPathBuf(std::path::PathBuf);

/// Milliseconds in a day.
pub const DAY_MS: u128 = 86_400_000;

/// One remembered text.
#[derive(Debug)]
pub struct FrecencyEntry {
    pub text: String,
    pub frequency: u32,
    pub last_used: u128,
}

/// The plain content of an entry.
pub struct EntryModel {
    pub text: Seq<char>,
    pub frequency: u32,
    pub last_used: u128,
}

impl FrecencyEntry {
    pub open spec fn model(&self) -> EntryModel {
        EntryModel { text: self.text@, frequency: self.frequency, last_used: self.last_used }
    }
}

/// The number of days (in milliseconds) that divides an entry's frequency: the time since its
/// last use, clamped to between one and thirty days.
pub open spec fn age_weight(last_used: u128, now: u128) -> int {
    let elapsed: int = if now >= last_used { now - last_used } else { 0 };
    if elapsed < DAY_MS {
        DAY_MS as int
    } else if elapsed > 30 * DAY_MS {
        30 * DAY_MS as int
    } else {
        elapsed
    }
}

/// Entry `a` scores at least as high as entry `b` at time `now`.
pub open spec fn scores_at_least(a: EntryModel, b: EntryModel, now: u128) -> bool {
    (a.frequency as int) * age_weight(b.last_used, now) >= (b.frequency as int) * age_weight(
        a.last_used,
        now,
    )
}

proof fn lemma_weight_pos(last: u128, now: u128)
    ensures
        DAY_MS <= age_weight(last, now) <= 30 * DAY_MS,
{
}

/// Scoring is a total preorder: any two entries are comparable and comparison is transitive.
pub proof fn lemma_scores_total_preorder(a: EntryModel, b: EntryModel, c: EntryModel, now: u128)
    ensures
        scores_at_least(a, b, now) || scores_at_least(b, a, now),
        scores_at_least(a, a, now),
        scores_at_least(a, b, now) && scores_at_least(b, c, now) ==> scores_at_least(a, c, now),
{
    lemma_weight_pos(a.last_used, now);
    lemma_weight_pos(b.last_used, now);
    lemma_weight_pos(c.last_used, now);
    let fa = a.frequency as int;
    let fb = b.frequency as int;
    let fc = c.frequency as int;
    let wa = age_weight(a.last_used, now);
    let wb = age_weight(b.last_used, now);
    let wc = age_weight(c.last_used, now);
    assert(fa * wb >= fb * wa && fb * wc >= fc * wb ==> fa * wc >= fc * wa) by (nonlinear_arith)
        requires
            wa > 0,
            wb > 0,
            wc > 0,
            fa >= 0,
            fb >= 0,
            fc >= 0,
    ;
}

fn weight_of(last_used: u128, now: u128) -> (w: u128)
    ensures
        w == age_weight(last_used, now),
{
    let elapsed = if now >= last_used {
        now - last_used
    } else {
        0
    };
    if elapsed < DAY_MS {
        DAY_MS
    } else if elapsed > 30 * DAY_MS {
        30 * DAY_MS
    } else {
        elapsed
    }
}

/// Whether `a` scores at least as high as `b` at time `now`.
pub fn score_at_least(a: &FrecencyEntry, b: &FrecencyEntry, now: u128) -> (r: bool)
    ensures
        r == scores_at_least(a.model(), b.model(), now),
{
    let wa = weight_of(a.last_used, now);
    let wb = weight_of(b.last_used, now);
    proof {
        lemma_weight_pos(a.last_used, now);
        lemma_weight_pos(b.last_used, now);
        assert((a.frequency as int) * (wb as int) <= 0xffff_ffff * (30 * DAY_MS as int))
            by (nonlinear_arith)
            requires
                a.frequency <= 0xffff_ffff,
                wb <= 30 * DAY_MS,
        ;
        assert((b.frequency as int) * (wa as int) <= 0xffff_ffff * (30 * DAY_MS as int))
            by (nonlinear_arith)
            requires
                b.frequency <= 0xffff_ffff,
                wa <= 30 * DAY_MS,
        ;
    }
    (a.frequency as u128) * wb >= (b.frequency as u128) * wa
}

/// `r` lists, by index into `entries`, the `min(limit, |cands|)` best-scoring candidates from
/// `cands`, best first; no candidate left out scores higher than one that was listed.
pub open spec fn is_top_ranking(
    entries: Seq<EntryModel>,
    cands: Seq<usize>,
    limit: nat,
    now: u128,
    r: Seq<usize>,
) -> bool {
    &&& r.len() == if limit < cands.len() { limit } else { cands.len() }
    &&& forall|i: int| 0 <= i < r.len() ==> cands.contains(#[trigger] r[i])
    &&& forall|i: int, j: int| 0 <= i < j < r.len() ==> r[i] != r[j]
    &&& forall|i: int, j: int|
        0 <= i < j < r.len() ==> scores_at_least(
            entries[r[i] as int],
            entries[r[j] as int],
            now,
        )
    &&& forall|i: int, c: usize|
        0 <= i < r.len() && cands.contains(c) && !r.contains(c) ==> scores_at_least(
            entries[#[trigger] r[i] as int],
            #[trigger] entries[c as int],
            now,
        )
}

/// Entry `k` is offered for `prefix`: the prefix is empty, or the entry's lower-cased text
/// starts with the lower-cased prefix.
pub open spec fn prefix_selected(es: Seq<EntryModel>, prefix: Seq<char>, k: int) -> bool {
    prefix.len() == 0 || has_prefix(lowercase_of(es[k].text), lowercase_of(prefix))
}

/// `0, 1, ..., n - 1`.
pub open spec fn all_indices(n: nat) -> Seq<usize> {
    Seq::new(n, |i: int| i as usize)
}

/// `r` holds, in order, the texts of the entries at the indices `idx`.
pub open spec fn lists_texts(es: Seq<EntryModel>, idx: Seq<usize>, r: Seq<String>) -> bool {
    &&& r.len() == idx.len()
    &&& forall|i: int| 0 <= i < idx.len() ==> idx[i] < es.len() && #[trigger] r[i]@ == es[idx[i] as int].text
}

/// The contents of a store: its entries, each text at most once.
pub struct FrecencyStore {
    entries: Vec<FrecencyEntry>,
    path: std::path::PathBuf,
    dirty: bool,
}

/// `texts` holds no text twice.
pub open spec fn distinct_texts(es: Seq<EntryModel>) -> bool {
    forall|i: int, j: int| 0 <= i < j < es.len() ==> es[i].text != es[j].text
}

/// `es` with `m` put in: replacing the entry with the same text, or added last.
pub open spec fn upserted(es: Seq<EntryModel>, m: EntryModel) -> Seq<EntryModel> {
    if exists|i: int| 0 <= i < es.len() && es[i].text == m.text {
        let i = choose|i: int| 0 <= i < es.len() && es[i].text == m.text;
        es.update(i, m)
    } else {
        es.push(m)
    }
}

/// The entries obtained by putting in each of `ms`, in order, starting from none.
pub open spec fn upsert_all(ms: Seq<EntryModel>) -> Seq<EntryModel>
    decreases ms.len(),
{
    if ms.len() == 0 {
        Seq::empty()
    } else {
        upserted(upsert_all(ms.drop_last()), ms.last())
    }
}

/// The use record of `text`: its entry when the store has one, otherwise a record of no uses
/// (which scores lowest).
pub open spec fn usage_model(es: Seq<EntryModel>, text: Seq<char>) -> EntryModel
    decreases es.len(),
{
    if es.len() == 0 {
        EntryModel { text, frequency: 0, last_used: 0 }
    } else if es.last().text == text {
        es.last()
    } else {
        usage_model(es.drop_last(), text)
    }
}

/// The store after recording `text` (already trimmed, not empty) at time `now`.
pub open spec fn recorded(es: Seq<EntryModel>, text: Seq<char>, now: u128) -> Seq<EntryModel> {
    if exists|i: int| 0 <= i < es.len() && es[i].text == text {
        let i = choose|i: int| 0 <= i < es.len() && es[i].text == text;
        es.update(
            i,
            EntryModel { text, frequency: (es[i].frequency + 1) as u32, last_used: now },
        )
    } else {
        es.push(EntryModel { text, frequency: 1, last_used: now })
    }
}

/// Calls `SystemTime::now` and gives the milliseconds since the Unix epoch (0 when the clock
/// is before the epoch). Nothing is promised of the value: it is the time.
#[verifier::external_body]
pub(crate) fn now_millis() -> (t: u128) {
    std::time::SystemTime::now().duration_since(std::time::UNIX_EPOCH).unwrap_or_default().as_millis()
}

impl FrecencyStore {
    /// The entries of the store.
    pub closed spec fn models(&self) -> Seq<EntryModel> {
        self.entries@.map_values(|e: FrecencyEntry| e.model())
    }

    /// The store's invariant: each text occurs once.
    pub closed spec fn wf(&self) -> bool {
        distinct_texts(self.models())
    }

    /// The file the store is saved to.
    pub closed spec fn backing_path(&self) -> std::path::PathBuf {
        self.path
    }

    /// Whether there are changes not yet saved.
    pub closed spec fn dirty_flag(&self) -> bool {
        self.dirty
    }

    /// Recording any text keeps frequencies in range.
    pub open spec fn can_record(&self) -> bool {
        forall|i: int| 0 <= i < self.models().len() ==> #[trigger] self.models()[i].frequency < u32::MAX
    }

    /// An empty store backed by `path`.
    pub fn new(path: std::path::PathBuf) -> (s: Self)
        ensures
            s.models() == Seq::<EntryModel>::empty(),
            s.wf(),
            !s.dirty_flag(),
            s.backing_path() == path,
    {
        let s = FrecencyStore { entries: Vec::new(), path, dirty: false };
        assert(s.models() =~= Seq::<EntryModel>::empty());
        s
    }

    /// A store backed by `path` holding `loaded` as read from disk: entries are taken in
    /// order, and an entry whose text is already present replaces the earlier one.
    pub fn from_entries(path: std::path::PathBuf, loaded: Vec<FrecencyEntry>) -> (s: Self)
        ensures
            s.wf(),
            !s.dirty_flag(),
            s.models() == upsert_all(loaded@.map_values(|e: FrecencyEntry| e.model())),
            s.backing_path() == path,
    {
        let mut s = FrecencyStore { entries: Vec::new(), path, dirty: false };
        let ghost lm = loaded@.map_values(|e: FrecencyEntry| e.model());
        assert(s.models() =~= upsert_all(lm.take(0)));
        let mut j: usize = 0;
        while j < loaded.len()
            invariant
                j <= loaded@.len(),
                lm == loaded@.map_values(|e: FrecencyEntry| e.model()),
                s.wf(),
                !s.dirty,
                s.path == path,
                s.models() == upsert_all(lm.take(j as int)),
            decreases loaded.len() - j,
        {
            let e = FrecencyEntry {
                text: copy_string(&loaded[j].text),
                frequency: loaded[j].frequency,
                last_used: loaded[j].last_used,
            };
            s.upsert(e);
            proof {
                assert(lm.take(j + 1).drop_last() =~= lm.take(j as int));
            }
            j = j + 1;
        }
        assert(lm.take(loaded@.len() as int) =~= lm);
        s
    }

    /// Puts `e` in the store: it replaces the entry with the same text, or is added last.
    fn upsert(&mut self, e: FrecencyEntry)
        requires
            old(self).wf(),
        ensures
            final(self).wf(),
            final(self).dirty == old(self).dirty,
            final(self).path == old(self).path,
            final(self).models() == upserted(old(self).models(), e.model()),
    {
        let ghost es = self.models();
        let mut i: usize = 0;
        while i < self.entries.len()
            invariant
                i <= self.entries@.len(),
                es == self.models(),
                es == old(self).models(),
                self.dirty == old(self).dirty,
                self.path == old(self).path,
                distinct_texts(es),
                es == self.entries@.map_values(|e: FrecencyEntry| e.model()),
                forall|j: int| 0 <= j < i ==> es[j].text != e.text@,
            decreases self.entries.len() - i,
        {
            if str_eq(self.entries[i].text.as_str(), e.text.as_str()) {
                proof {
                    assert(es[i as int].text == e.text@);
                    let c = choose|k: int| 0 <= k < es.len() && es[k].text == e.text@;
                    assert(c == i) by {
                        if c > i {
                            assert(es[i as int].text != es[c].text);
                        }
                    }
                }
                self.entries.set(i, e);
                proof {
                    let ms = self.models();
                    assert(ms =~= upserted(es, e.model()));
                    assert forall|a: int, b: int| 0 <= a < b < ms.len() implies ms[a].text != ms[b].text by {
                        assert(es[a].text != es[b].text);
                    }
                }
                return;
            }
            i = i + 1;
        }
        self.entries.push(e);
        proof {
            let ms = self.models();
            assert(ms =~= upserted(es, e.model()));
            assert forall|a: int, b: int| 0 <= a < b < ms.len() implies ms[a].text != ms[b].text by {
                if b < es.len() {
                    assert(es[a].text != es[b].text);
                }
            }
        }
    }

    /// The use record of `text`, for ranking it against other texts: its entry, or a record
    /// of no uses when the store has none.
    pub fn usage_entry(&self, text: &str) -> (e: FrecencyEntry)
        ensures
            e.model() == usage_model(self.models(), text@),
    {
        let ghost es = self.models();
        let mut i: usize = self.entries.len();
        assert(es.take(i as int) =~= es);
        while i > 0
            invariant
                es == self.models(),
                i <= es.len(),
                usage_model(es.take(i as int), text@) == usage_model(es, text@),
            decreases i,
        {
            assert(es.take(i as int).drop_last() =~= es.take(i - 1));
            if str_eq(self.entries[i - 1].text.as_str(), text) {
                let e = &self.entries[i - 1];
                return FrecencyEntry {
                    text: copy_string(&e.text),
                    frequency: e.frequency,
                    last_used: e.last_used,
                };
            }
            i = i - 1;
        }
        FrecencyEntry { text: String::from_str(text), frequency: 0, last_used: 0 }
    }

    /// Number of entries in the store.
    pub fn len(&self) -> (n: usize)
        ensures
            n == self.models().len(),
    {
        self.entries.len()
    }

    /// Whether the store has no entries.
    pub fn is_empty(&self) -> (b: bool)
        ensures
            b == (self.models().len() == 0),
    {
        self.entries.len() == 0
    }

    /// Whether there are unsaved changes.
    pub fn is_dirty(&self) -> (b: bool)
        ensures
            b == self.dirty_flag(),
    {
        self.dirty
    }

    /// The file backing this store.
    pub fn path(&self) -> (r: &std::path::PathBuf)
        ensures
            *r == self.backing_path(),
    {
        &self.path
    }

    /// Marks the store as saved.
    pub fn mark_saved(&mut self)
        ensures
            final(self).models() == old(self).models(),
            !final(self).dirty_flag(),
            final(self).backing_path() == old(self).backing_path(),
    {
        self.dirty = false;
    }

    /// Records `text` at time `now`: its trimmed form gains one use and `now` as its last use;
    /// a blank text is ignored.
    pub fn record_at(&mut self, text: &str, now: u128)
        requires
            old(self).wf(),
            old(self).can_record(),
        ensures
            final(self).wf(),
            is_blank(text@) ==> final(self).models() == old(self).models() && final(self).dirty_flag()
                == old(self).dirty_flag(),
            !is_blank(text@) ==> final(self).models() == recorded(old(self).models(), trimmed(text@), now)
                && final(self).dirty_flag(),
            final(self).backing_path() == old(self).backing_path(),
    {
        proof {
            lemma_blank_iff_trim_empty(text@);
        }
        let t = str_trim(text);
        if t.unicode_len() == 0 {
            return;
        }
        let ghost es = self.models();
        let mut i: usize = 0;
        while i < self.entries.len()
            invariant
                i <= self.entries@.len(),
                self.models() == es,
                es == old(self).models(),
                self.path == old(self).path,
                t@ == trimmed(text@),
                t@.len() > 0,
                !is_blank(text@),
                distinct_texts(es),
                forall|j: int| 0 <= j < es.len() ==> #[trigger] es[j].frequency < u32::MAX,
                es == self.entries@.map_values(|e: FrecencyEntry| e.model()),
                forall|j: int| 0 <= j < i ==> es[j].text != t@,
            decreases self.entries.len() - i,
        {
            if str_eq(self.entries[i].text.as_str(), t.as_str()) {
                proof {
                    assert(es[i as int].text == t@);
                    let c = choose|k: int| 0 <= k < es.len() && es[k].text == t@;
                    assert(c == i) by {
                        if c > i {
                            assert(es[i as int].text != es[c].text);
                        }
                    }
                }
                let f = self.entries[i].frequency;
                assert(f == es[i as int].frequency);
                let e = FrecencyEntry { text: t, frequency: f + 1, last_used: now };
                self.entries.set(i, e);
                self.dirty = true;
                proof {
                    let ms = self.models();
                    assert(ms =~= recorded(es, trimmed(text@), now));
                    assert forall|a: int, b: int| 0 <= a < b < ms.len() implies ms[a].text != ms[b].text by {
                        assert(es[a].text != es[b].text);
                    }
                }
                return;
            }
            i = i + 1;
        }
        let e = FrecencyEntry { text: t, frequency: 1, last_used: now };
        self.entries.push(e);
        self.dirty = true;
        proof {
            let ms = self.models();
            assert(ms =~= recorded(es, trimmed(text@), now));
            assert forall|a: int, b: int| 0 <= a < b < ms.len() implies ms[a].text != ms[b].text by {
                if b < es.len() {
                    assert(es[a].text != es[b].text);
                }
            }
        }
    }

    /// Records `text` now: as `record_at` with the current time.
    pub fn record(&mut self, text: &str)
        requires
            old(self).wf(),
            old(self).can_record(),
        ensures
            final(self).wf(),
            is_blank(text@) ==> final(self).models() == old(self).models() && final(self).dirty_flag()
                == old(self).dirty_flag(),
            !is_blank(text@) ==> final(self).dirty_flag() && exists|t: u128|
                final(self).models() == recorded(old(self).models(), trimmed(text@), t),
            final(self).backing_path() == old(self).backing_path(),
    {
        let now = now_millis();
        self.record_at(text, now);
    }

    /// The score relation between two entries of the store, by index.
    fn ranks_at_least(&self, a: usize, b: usize, now: u128) -> (r: bool)
        requires
            a < self.models().len(),
            b < self.models().len(),
        ensures
            r == scores_at_least(self.models()[a as int], self.models()[b as int], now),
    {
        score_at_least(&self.entries[a], &self.entries[b], now)
    }

    /// The indices of candidates `cands`, best-scoring first, at most `limit` of them.
    fn top_ranked(&self, cands: &Vec<usize>, limit: usize, now: u128) -> (r: Vec<usize>)
        requires
            forall|i: int| 0 <= i < cands@.len() ==> #[trigger] cands@[i] < self.models().len(),
            forall|i: int, j: int| 0 <= i < j < cands@.len() ==> cands@[i] != cands@[j],
        ensures
            is_top_ranking(self.models(), cands@, limit as nat, now, r@),
            forall|i: int| 0 <= i < r@.len() ==> #[trigger] r@[i] < self.models().len(),
    {
        let ghost es = self.models();
        let n = cands.len();
        let target = if limit < n {
            limit
        } else {
            n
        };
        let mut chosen: Vec<bool> = Vec::new();
        let mut t: usize = 0;
        while t < n
            invariant
                t <= n,
                chosen@.len() == t,
                forall|k: int| 0 <= k < t ==> !chosen@[k],
            decreases n - t,
        {
            chosen.push(false);
            t = t + 1;
        }
        let mut r: Vec<usize> = Vec::new();
        proof {
            if 0 < target {
                assert(!chosen@[0]);
            }
        }
        while r.len() < target
            invariant
                n == cands@.len(),
                target <= n,
                target == if (limit as nat) < cands@.len() { limit as nat } else { cands@.len() },
                r@.len() <= target,
                chosen@.len() == n,
                es == self.models(),
                forall|i: int| 0 <= i < cands@.len() ==> #[trigger] cands@[i] < es.len(),
                forall|i: int, j: int| 0 <= i < j < cands@.len() ==> cands@[i] != cands@[j],
                // chosen marks exactly the listed candidates
                forall|k: int| 0 <= k < n ==> (chosen@[k] <==> r@.contains(#[trigger] cands@[k])),
                forall|i: int| 0 <= i < r@.len() ==> cands@.contains(#[trigger] r@[i]),
                forall|i: int, j: int| 0 <= i < j < r@.len() ==> r@[i] != r@[j],
                forall|i: int, j: int|
                    0 <= i < j < r@.len() ==> scores_at_least(es[r@[i] as int], es[r@[j] as int], now),
                forall|i: int, k: int|
                    0 <= i < r@.len() && 0 <= k < n && !chosen@[k] ==> scores_at_least(
                        es[#[trigger] r@[i] as int],
                        es[#[trigger] cands@[k] as int],
                        now,
                    ),
                // number of chosen equals r.len()
                r@.len() < target ==> exists|k: int| 0 <= k < n && !chosen@[k],
            decreases target - r@.len(),
        {
            // find the best unchosen candidate
            let mut best: Option<usize> = None;
            let mut k: usize = 0;
            while k < n
                invariant
                    n == cands@.len(),
                    chosen@.len() == n,
                    k <= n,
                    es == self.models(),
                    forall|i: int| 0 <= i < cands@.len() ==> #[trigger] cands@[i] < es.len(),
                    best matches Some(b) ==> b < k && !chosen@[b as int],
                    best is None ==> forall|q: int| 0 <= q < k ==> chosen@[q],
                    best matches Some(b) ==> forall|q: int|
                        0 <= q < k && !chosen@[q] ==> scores_at_least(
                            es[cands@[b as int] as int],
                            es[#[trigger] cands@[q] as int],
                            now,
                        ),
                decreases n - k,
            {
                if !chosen[k] {
                    match best {
                        None => {
                            best = Some(k);
                            proof {
                                lemma_scores_total_preorder(es[cands@[k as int] as int], es[cands@[k as int] as int], es[cands@[k as int] as int], now);
                            }
                        },
                        Some(b) => {
                            let better = !self.ranks_at_least(cands[b], cands[k], now);
                            if better {
                                proof {
                                    assert forall|q: int|
                                        0 <= q < k + 1 && !chosen@[q] implies scores_at_least(
                                            es[cands@[k as int] as int],
                                            es[#[trigger] cands@[q] as int],
                                            now,
                                        ) by {
                                        lemma_scores_total_preorder(es[cands@[k as int] as int], es[cands@[b as int] as int], es[cands@[q] as int], now);
                                        lemma_scores_total_preorder(es[cands@[k as int] as int], es[cands@[k as int] as int], es[cands@[k as int] as int], now);
                                    }
                                }
                                best = Some(k);
                            } else {
                                proof {
                                    assert forall|q: int|
                                        0 <= q < k + 1 && !chosen@[q] implies scores_at_least(
                                            es[cands@[b as int] as int],
                                            es[#[trigger] cands@[q] as int],
                                            now,
                                        ) by {
                                    }
                                }
                            }
                        },
                    }
                }
                k = k + 1;
            }
            let b = match best {
                Some(b) => b,
                None => {
                    proof {
                        let w = choose|k: int| 0 <= k < n && !chosen@[k];
                        assert(chosen@[w]);
                    }
                    0
                },
            };
            let ghost old_r = r@;
            let ghost old_chosen = chosen@;
            r.push(cands[b]);
            chosen.set(b, true);
            proof {
                assert(!old_r.contains(cands@[b as int]));
                assert forall|kk: int| 0 <= kk < n implies (chosen@[kk] <==> r@.contains(#[trigger] cands@[kk])) by {
                    if kk == b {
                        assert(r@[r@.len() - 1] == cands@[kk]);
                    } else {
                        assert(cands@[kk] != cands@[b as int]);
                        if old_r.contains(cands@[kk]) {
                            let w = choose|w: int| 0 <= w < old_r.len() && old_r[w] == cands@[kk];
                            assert(r@[w] == cands@[kk]);
                        }
                        if r@.contains(cands@[kk]) {
                            let w = choose|w: int| 0 <= w < r@.len() && r@[w] == cands@[kk];
                            if w < old_r.len() {
                                assert(old_r[w] == cands@[kk]);
                            }
                        }
                    }
                }
                assert forall|i: int| 0 <= i < r@.len() implies cands@.contains(#[trigger] r@[i]) by {
                    if i == old_r.len() {
                        assert(cands@[b as int] == r@[i]);
                    } else {
                        assert(old_r[i] == r@[i]);
                    }
                }
                assert forall|i: int, j: int| 0 <= i < j < r@.len() implies r@[i] != r@[j] by {
                    if j == old_r.len() {
                        assert(old_r[i] == r@[i]);
                        assert(old_r.contains(r@[i]));
                    }
                }
                assert forall|i: int, j: int| 0 <= i < j < r@.len() implies scores_at_least(
                    es[r@[i] as int],
                    es[r@[j] as int],
                    now,
                ) by {
                    if j == old_r.len() {
                        assert(r@[i] == old_r[i]);
                        assert(!old_chosen[b as int]);
                    }
                }
                assert forall|i: int, kk: int|
                    0 <= i < r@.len() && 0 <= kk < n && !chosen@[kk] implies scores_at_least(
                        es[#[trigger] r@[i] as int],
                        es[#[trigger] cands@[kk] as int],
                        now,
                    ) by {
                    if i == old_r.len() {
                        assert(!old_chosen[kk]);
                    } else {
                        assert(r@[i] == old_r[i]);
                        assert(!old_chosen[kk]);
                    }
                }
                if r@.len() < target {
                    // fewer chosen than candidates: some candidate is still free
                    assert(exists|kk: int| 0 <= kk < n && !chosen@[kk]) by {
                        if forall|kk: int| 0 <= kk < n ==> chosen@[kk] {
                            // every candidate is listed, so r holds n distinct values
                            lemma_distinct_cover(cands@, r@);
                        }
                    }
                }
            }
        }
        proof {
            assert forall|i: int, c: usize|
                0 <= i < r@.len() && cands@.contains(c) && !r@.contains(c) implies scores_at_least(
                    es[#[trigger] r@[i] as int],
                    #[trigger] es[c as int],
                    now,
                ) by {
                let kk = choose|kk: int| 0 <= kk < cands@.len() && cands@[kk] == c;
                assert(!chosen@[kk]);
            }
            assert forall|i: int| 0 <= i < r@.len() implies #[trigger] r@[i] < es.len() by {
                assert(cands@.contains(r@[i]));
            }
        }
        r
    }

    /// The texts of the best-scoring entries at time `now`, at most `limit`, best first.
    pub fn top_entries_at(&self, limit: usize, now: u128) -> (r: Vec<String>)
        ensures
            exists|idx: Seq<usize>|
                #![trigger is_top_ranking(self.models(), all_indices(self.models().len()), limit as nat, now, idx)]
                is_top_ranking(self.models(), all_indices(self.models().len()), limit as nat, now, idx)
                    && lists_texts(self.models(), idx, r@),
    {
        let mut cands: Vec<usize> = Vec::new();
        let mut i: usize = 0;
        while i < self.entries.len()
            invariant
                i <= self.entries@.len(),
                cands@ == all_indices(i as nat),
            decreases self.entries.len() - i,
        {
            cands.push(i);
            i = i + 1;
            assert(cands@ =~= all_indices(i as nat));
        }
        assert(self.models().len() == self.entries@.len());
        assert(cands@ == all_indices(self.models().len()));
        let idx = self.top_ranked(&cands, limit, now);
        let r = self.texts_of(&idx);
        assert(lists_texts(self.models(), idx@, r@));
        assert(is_top_ranking(self.models(), all_indices(self.models().len()), limit as nat, now, idx@));
        r
    }

    fn texts_of(&self, idx: &Vec<usize>) -> (r: Vec<String>)
        requires
            forall|i: int| 0 <= i < idx@.len() ==> #[trigger] idx@[i] < self.models().len(),
        ensures
            r@.len() == idx@.len(),
            forall|i: int| 0 <= i < idx@.len() ==> #[trigger] r@[i]@ == self.models()[idx@[i] as int].text,
    {
        let mut r: Vec<String> = Vec::new();
        let mut i: usize = 0;
        while i < idx.len()
            invariant
                i <= idx@.len(),
                r@.len() == i,
                forall|k: int| 0 <= k < idx@.len() ==> #[trigger] idx@[k] < self.models().len(),
                forall|k: int| 0 <= k < i ==> #[trigger] r@[k]@ == self.models()[idx@[k] as int].text,
            decreases idx.len() - i,
        {
            r.push(copy_string(&self.entries[idx[i]].text));
            i = i + 1;
        }
        r
    }

    /// The texts whose lower-cased form starts with the lower-cased `prefix`, best-scoring
    /// first, at most `limit`; with an empty prefix, the best entries overall.
    pub fn suggestions_at(&self, prefix: &str, limit: usize, now: u128) -> (r: Vec<String>)
        ensures
            exists|cands: Seq<usize>, idx: Seq<usize>|
                #![trigger is_top_ranking(self.models(), cands, limit as nat, now, idx)]
                (forall|i: int| 0 <= i < cands.len() ==> #[trigger] cands[i] < self.models().len())
                && (forall|k: int| 0 <= k < self.models().len() ==> (cands.contains(k as usize) <==> #[trigger] prefix_selected(self.models(), prefix@, k)))
                && is_top_ranking(self.models(), cands, limit as nat, now, idx)
                && lists_texts(self.models(), idx, r@),
    {
        let pl = to_lowercase(prefix);
        let plv = chars_of(pl.as_str());
        let empty = prefix.unicode_len() == 0;
        let mut cands: Vec<usize> = Vec::new();
        let mut i: usize = 0;
        while i < self.entries.len()
            invariant
                i <= self.entries@.len(),
                plv@ == lowercase_of(prefix@),
                empty == (prefix@.len() == 0),
                forall|k: int| 0 <= k < cands@.len() ==> #[trigger] cands@[k] < i,
                forall|a: int, b: int| 0 <= a < b < cands@.len() ==> cands@[a] < cands@[b],
                forall|k: int| 0 <= k < i ==> (cands@.contains(k as usize) <==> #[trigger] prefix_selected(self.models(), prefix@, k)),
            decreases self.entries.len() - i,
        {
            let keep = if empty {
                true
            } else {
                let tl = to_lowercase(self.entries[i].text.as_str());
                let tlv = chars_of(tl.as_str());
                seq_starts_with(&tlv, &plv)
            };
            let ghost before = cands@;
            assert(self.models()[i as int].text == self.entries@[i as int].text@);
            if keep {
                cands.push(i);
            }
            proof {
                assert forall|k: int| 0 <= k < i + 1 implies (cands@.contains(k as usize) <==> #[trigger] prefix_selected(self.models(), prefix@, k)) by {
                    if k < i {
                        if cands@.contains(k as usize) {
                            let w = choose|w: int| 0 <= w < cands@.len() && cands@[w] == k as usize;
                            if w < before.len() {
                                assert(before[w] == k as usize);
                            }
                        }
                        if before.contains(k as usize) {
                            let w = choose|w: int| 0 <= w < before.len() && before[w] == k as usize;
                            assert(cands@[w] == k as usize);
                        }
                    } else {
                        if keep {
                            assert(cands@[cands@.len() - 1] == i);
                        } else {
                            if cands@.contains(k as usize) {
                                let w = choose|w: int| 0 <= w < cands@.len() && cands@[w] == k as usize;
                                assert(before[w] < i);
                            }
                        }
                    }
                }
            }
            i = i + 1;
        }
        proof {
            assert forall|a: int, b: int| 0 <= a < b < cands@.len() implies cands@[a] != cands@[b] by {}
        }
        let idx = self.top_ranked(&cands, limit, now);
        self.texts_of(&idx)
    }

    /// `top_entries_at` with the current time.
    pub fn top_entries(&self, limit: usize) -> (r: Vec<String>)
        ensures
            exists|now: u128, idx: Seq<usize>|
                #![trigger is_top_ranking(self.models(), all_indices(self.models().len()), limit as nat, now, idx)]
                is_top_ranking(self.models(), all_indices(self.models().len()), limit as nat, now, idx)
                    && lists_texts(self.models(), idx, r@),
    {
        let now = now_millis();
        self.top_entries_at(limit, now)
    }

    /// `suggestions_at` with the current time.
    pub fn suggestions(&self, prefix: &str, limit: usize) -> (r: Vec<String>)
        ensures
            exists|now: u128, cands: Seq<usize>, idx: Seq<usize>|
                #![trigger is_top_ranking(self.models(), cands, limit as nat, now, idx)]
                (forall|i: int| 0 <= i < cands.len() ==> #[trigger] cands[i] < self.models().len())
                && (forall|k: int| 0 <= k < self.models().len() ==> (cands.contains(k as usize) <==> #[trigger] prefix_selected(self.models(), prefix@, k)))
                && is_top_ranking(self.models(), cands, limit as nat, now, idx)
                && lists_texts(self.models(), idx, r@),
    {
        let now = now_millis();
        self.suggestions_at(prefix, limit, now)
    }
}

/// A sequence of distinct values that holds every value of another sequence of distinct
/// values is at least as long.
proof fn lemma_distinct_cover(cands: Seq<usize>, r: Seq<usize>)
    requires
        forall|i: int, j: int| 0 <= i < j < cands.len() ==> cands[i] != cands[j],
        forall|k: int| 0 <= k < cands.len() ==> r.contains(#[trigger] cands[k]),
    ensures
        r.len() >= cands.len(),
{
    broadcast use vstd::seq_lib::seq_to_set_is_finite;
    let cs = cands.to_set();
    let rs = r.to_set();
    assert(cs.subset_of(rs)) by {
        assert forall|x: usize| cs.contains(x) implies rs.contains(x) by {
            let k = choose|k: int| 0 <= k < cands.len() && cands[k] == x;
            assert(r.contains(cands[k]));
        }
    }
    vstd::set_lib::lemma_len_subset(cs, rs);
    cands.unique_seq_to_set();
    r.lemma_cardinality_of_set();
}


/// What saving a store writes, given the order its entries are listed in: each listed
/// entry as read back by its text.
pub open spec fn saved_entries(es: Seq<EntryModel>, idx: Seq<usize>) -> Seq<EntryModel> {
    Seq::new(idx.len(), |i: int| usage_model(es, es[idx[i] as int].text))
}

proof fn lemma_usage_model_at(es: Seq<EntryModel>, k: int)
    requires
        distinct_texts(es),
        0 <= k < es.len(),
    ensures
        usage_model(es, es[k].text) == es[k],
    decreases es.len(),
{
    if k < es.len() - 1 {
        assert(es.last().text != es[k].text);
        let rest = es.drop_last();
        assert(rest[k] == es[k]);
        assert(distinct_texts(rest)) by {
            assert forall|i: int, j: int| 0 <= i < j < rest.len() implies rest[i].text != rest[j].text by {
                assert(rest[i] == es[i] && rest[j] == es[j]);
            }
        }
        lemma_usage_model_at(rest, k);
    }
}

proof fn lemma_upsert_all_distinct(ms: Seq<EntryModel>)
    requires
        distinct_texts(ms),
    ensures
        upsert_all(ms) == ms,
    decreases ms.len(),
{
    if ms.len() > 0 {
        let rest = ms.drop_last();
        assert(distinct_texts(rest)) by {
            assert forall|i: int, j: int| 0 <= i < j < rest.len() implies rest[i].text != rest[j].text by {
                assert(rest[i] == ms[i] && rest[j] == ms[j]);
            }
        }
        lemma_upsert_all_distinct(rest);
        assert forall|i: int| 0 <= i < rest.len() implies rest[i].text != ms.last().text by {
            assert(rest[i] == ms[i]);
        }
        assert(rest.push(ms.last()) =~= ms);
    }
}

impl FrecencyStore {
    /// Saving and loading give the store back: list the entries best first with no limit
    /// (as `top_entries_at` does with the store's length), take each text's entry
    /// (`usage_entry`), and building a store from that list (`from_entries`) gives exactly
    /// that list, which holds every entry of the store once, unchanged.
    pub proof fn lemma_save_load_roundtrip(&self, idx: Seq<usize>, now: u128)
        requires
            self.wf(),
            is_top_ranking(self.models(), all_indices(self.models().len()), self.models().len(), now, idx),
        ensures
            saved_entries(self.models(), idx).len() == self.models().len(),
            forall|i: int| 0 <= i < idx.len() ==> #[trigger] saved_entries(self.models(), idx)[i]
                == self.models()[idx[i] as int],
            forall|k: int| 0 <= k < self.models().len() ==> saved_entries(self.models(), idx).contains(
                #[trigger] self.models()[k],
            ),
            upsert_all(saved_entries(self.models(), idx)) == saved_entries(self.models(), idx),
    {
        let es = self.models();
        let n = es.len();
        let w = saved_entries(es, idx);
        let cands = all_indices(n);
        assert(n == self.entries.len());
        assert forall|i: int| 0 <= i < idx.len() implies #[trigger] idx[i] < n by {
            assert(cands.contains(idx[i]));
            let j = choose|j: int| 0 <= j < cands.len() && cands[j] == idx[i];
        }
        assert forall|i: int| 0 <= i < idx.len() implies #[trigger] w[i] == es[idx[i] as int] by {
            lemma_usage_model_at(es, idx[i] as int);
        }
        assert(distinct_texts(w)) by {
            assert forall|i: int, j: int| 0 <= i < j < w.len() implies w[i].text != w[j].text by {
                assert(w[i] == es[idx[i] as int] && w[j] == es[idx[j] as int]);
                assert(idx[i] != idx[j]);
            }
        }
        lemma_upsert_all_distinct(w);
        assert forall|k: int| 0 <= k < n implies w.contains(#[trigger] es[k]) by {
            if !idx.contains(k as usize) {
                broadcast use vstd::seq_lib::seq_to_set_is_finite;
                let others = cands.remove(k);
                assert forall|a: int, b: int| 0 <= a < b < others.len() implies others[a] != others[b] by {
                    let ca: int = if a < k { a } else { a + 1 };
                    let cb: int = if b < k { b } else { b + 1 };
                    assert(others[a] == cands[ca] && others[b] == cands[cb]);
                    assert(ca < cb);
                }
                assert forall|i: int| 0 <= i < idx.len() implies others.contains(#[trigger] idx[i]) by {
                    let v = idx[i] as int;
                    assert(v != k);
                    if v < k {
                        assert(others[v] == idx[i]);
                    } else {
                        assert(others[v - 1] == idx[i]);
                    }
                }
                lemma_distinct_cover(idx, others);
                assert(false);
            }
            let i = choose|i: int| 0 <= i < idx.len() && idx[i] == k as usize;
            assert(idx[i] as int == k);
            assert(w[i] == es[k]);
        }
    }
}

/// The order on texts by their use at time `now`, most used first, by position in `texts`.
pub open spec fn usage_order(es: Seq<EntryModel>, texts: Seq<Seq<char>>, now: u128) -> spec_fn(
    int,
    int,
) -> bool {
    |i: int, j: int| scores_at_least(usage_model(es, texts[i]), usage_model(es, texts[j]), now)
}

impl FrecencyStore {
    /// The positions of `texts` ordered by their use at time `now`, best first; texts that
    /// score the same keep their order.
    pub fn rank_by_usage(&self, texts: &Vec<String>, now: u128) -> (perm: Vec<usize>)
        ensures
            is_stable_sort(
                usage_order(self.models(), texts@.map_values(|t: String| t@), now),
                texts@.len() as int,
                perm@,
            ),
    {
        let n = texts.len();
        let ghost es = self.models();
        let ghost tv = texts@.map_values(|t: String| t@);
        let mut keys: Vec<FrecencyEntry> = Vec::new();
        let mut i: usize = 0;
        while i < n
            invariant
                i <= n,
                n == texts@.len(),
                es == self.models(),
                keys@.len() == i,
                forall|k: int| 0 <= k < i ==> #[trigger] keys@[k].model() == usage_model(es, texts@[k]@),
            decreases n - i,
        {
            keys.push(self.usage_entry(texts[i].as_str()));
            i = i + 1;
        }
        let ghost rel = usage_order(es, tv, now);
        let le = |a: usize, b: usize| -> (r: bool)
            requires
                a < keys@.len(),
                b < keys@.len(),
            ensures
                r == scores_at_least(keys@[a as int].model(), keys@[b as int].model(), now),
            { score_at_least(&keys[a], &keys[b], now) };
        proof {
            assert forall|a: int, b: int| 0 <= a < n && 0 <= b < n implies #[trigger] rel(a, b) || rel(
                b,
                a,
            ) by {
                lemma_scores_total_preorder(
                    usage_model(es, tv[a]),
                    usage_model(es, tv[b]),
                    usage_model(es, tv[b]),
                    now,
                );
            }
            assert forall|a: int, b: int, c: int|
                0 <= a < n && 0 <= b < n && 0 <= c < n && #[trigger] rel(a, b) && #[trigger] rel(
                    b,
                    c,
                ) implies rel(a, c) by {
                lemma_scores_total_preorder(
                    usage_model(es, tv[a]),
                    usage_model(es, tv[b]),
                    usage_model(es, tv[c]),
                    now,
                );
            }
            assert forall|a: usize, b: usize, r: bool|
                a < n && b < n && #[trigger] le.ensures((a, b), r) implies r == rel(a as int, b as int) by {
                assert(tv[a as int] == texts@[a as int]@);
                assert(tv[b as int] == texts@[b as int]@);
                assert(keys@[a as int].model() == usage_model(es, texts@[a as int]@));
                assert(keys@[b as int].model() == usage_model(es, texts@[b as int]@));
            }
        }
        stable_sort_indices(n, le, Ghost(rel))
    }
}

} // verus!
