//! A stable insertion sort of positions `0..n` under a total preorder.
use vstd::prelude::*;

verus! {

/// `rel` is total and transitive on positions `0..n`.
pub open spec fn total_preorder(rel: spec_fn(int, int) -> bool, n: int) -> bool {
    &&& forall|i: int, j: int| 0 <= i < n && 0 <= j < n ==> #[trigger] rel(i, j) || rel(j, i)
    &&& forall|i: int, j: int, k: int|
        0 <= i < n && 0 <= j < n && 0 <= k < n && #[trigger] rel(i, j) && #[trigger] rel(j, k)
            ==> rel(i, k)
}

/// `perm` lists each position of `0..n` once, in an order that `rel` accepts between any two
/// listed positions, keeping positions that `rel` cannot tell apart in the order given.
pub open spec fn is_stable_sort(rel: spec_fn(int, int) -> bool, n: int, perm: Seq<usize>) -> bool {
    &&& perm.len() == n
    &&& forall|i: int| 0 <= i < perm.len() ==> #[trigger] perm[i] < n
    &&& forall|i: int, j: int| 0 <= i < j < perm.len() ==> perm[i] != perm[j]
    &&& forall|x: usize| x < n ==> #[trigger] perm.contains(x)
    &&& forall|i: int, j: int|
        0 <= i < j < perm.len() ==> #[trigger] rel(perm[i] as int, perm[j] as int)
    &&& forall|i: int, j: int|
        0 <= i < j < perm.len() && #[trigger] rel(perm[j] as int, perm[i] as int) ==> perm[i]
            < perm[j]
}

/// Sorts the positions `0..n` stably by `le`, which decides `rel`.
pub fn stable_sort_indices<F: Fn(usize, usize) -> bool>(
    n: usize,
    le: F,
    Ghost(rel): Ghost<spec_fn(int, int) -> bool>,
) -> (perm: Vec<usize>)
    requires
        total_preorder(rel, n as int),
        forall|i: usize, j: usize| i < n && j < n ==> #[trigger] le.requires((i, j)),
        forall|i: usize, j: usize, b: bool|
            i < n && j < n && #[trigger] le.ensures((i, j), b) ==> b == rel(i as int, j as int),
    ensures
        is_stable_sort(rel, n as int, perm@),
{
    let mut perm: Vec<usize> = Vec::new();
    let mut i: usize = 0;
    while i < n
        invariant
            i <= n,
            total_preorder(rel, n as int),
            forall|a: usize, b: usize| a < n && b < n ==> #[trigger] le.requires((a, b)),
            forall|a: usize, b: usize, r: bool|
                a < n && b < n && #[trigger] le.ensures((a, b), r) ==> r == rel(a as int, b as int),
            is_stable_sort(rel, i as int, perm@),
        decreases n - i,
    {
        // find the first listed position that `i` must precede
        let mut p: usize = 0;
        while p < perm.len() && le(perm[p], i)
            invariant
                i < n,
                p <= perm@.len(),
                perm@.len() == i,
                forall|k: int| 0 <= k < perm@.len() ==> #[trigger] perm@[k] < i,
                forall|a: usize, b: usize| a < n && b < n ==> #[trigger] le.requires((a, b)),
                forall|a: usize, b: usize, r: bool|
                    a < n && b < n && #[trigger] le.ensures((a, b), r) ==> r == rel(a as int, b as int),
                forall|k: int| 0 <= k < p ==> rel(#[trigger] perm@[k] as int, i as int),
            decreases perm@.len() - p,
        {
            p = p + 1;
        }
        let ghost old_perm = perm@;
        proof {
            // everything from p on is strictly below i
            if p < old_perm.len() {
                assert(!rel(old_perm[p as int] as int, i as int));
                assert forall|q: int| p <= q < old_perm.len() implies !rel(#[trigger] old_perm[q] as int, i as int) by {
                    if q > p {
                        assert(rel(old_perm[p as int] as int, old_perm[q] as int));
                        if rel(old_perm[q] as int, i as int) {
                            assert(rel(old_perm[p as int] as int, i as int));
                        }
                    }
                }
            }
        }
        perm.insert(p, i);
        proof {
            let np = perm@;
            assert(np =~= old_perm.take(p as int).push(i) + old_perm.skip(p as int));
            assert forall|k: int| 0 <= k < np.len() implies #[trigger] np[k] < i + 1 by {
                if k < p {
                    assert(np[k] == old_perm[k]);
                } else if k > p {
                    assert(np[k] == old_perm[k - 1]);
                }
            }
            assert forall|a: int, b: int| 0 <= a < b < np.len() implies np[a] != np[b] by {
                if a < p && b > p {
                    assert(np[a] == old_perm[a] && np[b] == old_perm[b - 1]);
                } else if a > p {
                    assert(np[a] == old_perm[a - 1] && np[b] == old_perm[b - 1]);
                } else if b < p {
                    assert(np[a] == old_perm[a] && np[b] == old_perm[b]);
                } else if a == p {
                    assert(np[b] == old_perm[b - 1]);
                } else {
                    assert(np[a] == old_perm[a]);
                }
            }
            assert forall|x: usize| x < i + 1 implies #[trigger] np.contains(x) by {
                if x == i {
                    assert(np[p as int] == i);
                } else {
                    assert(old_perm.contains(x));
                    let w = choose|w: int| 0 <= w < old_perm.len() && old_perm[w] == x;
                    if w < p {
                        assert(np[w] == x);
                    } else {
                        assert(np[w + 1] == x);
                    }
                }
            }
            assert forall|a: int, b: int| 0 <= a < b < np.len() implies #[trigger] rel(np[a] as int, np[b] as int) by {
                if a < p && b > p {
                    assert(np[a] == old_perm[a] && np[b] == old_perm[b - 1]);
                } else if a > p {
                    assert(np[a] == old_perm[a - 1] && np[b] == old_perm[b - 1]);
                } else if b < p {
                    assert(np[a] == old_perm[a] && np[b] == old_perm[b]);
                } else if a == p {
                    assert(np[b] == old_perm[b - 1]);
                    assert(!rel(old_perm[b - 1] as int, i as int));
                } else {
                    assert(np[a] == old_perm[a]);
                }
            }
            assert forall|a: int, b: int|
                0 <= a < b < np.len() && #[trigger] rel(np[b] as int, np[a] as int) implies np[a] < np[b] by {
                if a < p && b > p {
                    assert(np[a] == old_perm[a] && np[b] == old_perm[b - 1]);
                } else if a > p {
                    assert(np[a] == old_perm[a - 1] && np[b] == old_perm[b - 1]);
                } else if b < p {
                    assert(np[a] == old_perm[a] && np[b] == old_perm[b]);
                } else if a == p {
                    assert(np[b] == old_perm[b - 1]);
                    assert(!rel(old_perm[b - 1] as int, i as int));
                } else {
                    assert(np[a] == old_perm[a]);
                    assert(old_perm[a] < i);
                }
            }
        }
        i = i + 1;
    }
    perm
}


/// The positions `i` in `0..n` for which `p(i)` holds, in increasing order.
pub open spec fn indices_where(n: int, p: spec_fn(int) -> bool) -> Seq<usize>
    decreases n,
{
    if n <= 0 {
        Seq::empty()
    } else if p(n - 1) {
        indices_where(n - 1, p).push((n - 1) as usize)
    } else {
        indices_where(n - 1, p)
    }
}

} // verus!
