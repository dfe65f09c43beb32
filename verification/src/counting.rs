//! Counting and picking by index: how many indices satisfy a condition,
//! and which items of a sequence they pick.

use vstd::prelude::*;

verus! {

/// How many of the indices below `n` satisfy `p`.
pub open spec fn count_below(p: spec_fn(int) -> bool, n: int) -> nat
    decreases n,
{
    if n <= 0 {
        0
    } else {
        count_below(p, n - 1) + if p(n - 1) {
            1nat
        } else {
            0nat
        }
    }
}

/// The items of `rows` below `n` whose index satisfies `keep`, in the order
/// of `rows`.
pub open spec fn kept<T>(rows: Seq<T>, keep: spec_fn(int) -> bool, n: int) -> Seq<T>
    decreases n,
{
    if n <= 0 {
        Seq::empty()
    } else if keep(n - 1) {
        kept(rows, keep, n - 1).push(rows[n - 1])
    } else {
        kept(rows, keep, n - 1)
    }
}

/// The index in `rows` from which the `j`-th kept item comes.
pub open spec fn source_of(keep: spec_fn(int) -> bool, n: int, j: int) -> int
    decreases n,
{
    if n <= 0 {
        -1
    } else if keep(n - 1) && j == count_below(keep, n - 1) {
        n - 1
    } else {
        source_of(keep, n - 1, j)
    }
}

/// `p`, but not at `m`.
pub open spec fn except(p: spec_fn(int) -> bool, m: int) -> spec_fn(int) -> bool {
    |k: int| p(k) && k != m
}

/// A count never exceeds the number of indices counted over.
pub proof fn lemma_count_bound(p: spec_fn(int) -> bool, n: int)
    requires
        0 <= n,
    ensures
        count_below(p, n) <= n,
    decreases n,
{
    if n > 0 {
        lemma_count_bound(p, n - 1);
    }
}

/// The kept items are exactly the items at the indices below `n` that
/// satisfy `keep`, each once and in the order of `rows`.
pub proof fn lemma_kept<T>(rows: Seq<T>, keep: spec_fn(int) -> bool, n: int)
    requires
        0 <= n <= rows.len(),
    ensures
        kept(rows, keep, n).len() == count_below(keep, n),
        forall|j: int|
            0 <= j < count_below(keep, n) ==> {
                let i = #[trigger] source_of(keep, n, j);
                0 <= i < n && keep(i) && count_below(keep, i) == j && kept(rows, keep, n)[j]
                    == rows[i]
            },
        forall|i: int|
            0 <= i < n && keep(i) ==> {
                let j = #[trigger] count_below(keep, i);
                0 <= j < count_below(keep, n) && source_of(keep, n, j as int) == i
            },
    decreases n,
{
    if n > 0 {
        lemma_kept(rows, keep, n - 1);
        lemma_count_bound(keep, n - 1);
        let front = kept(rows, keep, n - 1);
        assert forall|j: int| 0 <= j < count_below(keep, n) implies {
            let i = #[trigger] source_of(keep, n, j);
            0 <= i < n && keep(i) && count_below(keep, i) == j && kept(rows, keep, n)[j] == rows[i]
        } by {
            if keep(n - 1) && j == count_below(keep, n - 1) {
                assert(kept(rows, keep, n) == front.push(rows[n - 1]));
                assert(front.len() == j);
            } else {
                let i = source_of(keep, n - 1, j);
                assert(0 <= i < n - 1 && keep(i) && front[j] == rows[i]);
                if keep(n - 1) {
                    assert(kept(rows, keep, n) == front.push(rows[n - 1]));
                }
            }
        }
        assert forall|i: int| 0 <= i < n && keep(i) implies {
            let j = #[trigger] count_below(keep, i);
            0 <= j < count_below(keep, n) && source_of(keep, n, j as int) == i
        } by {
            if i < n - 1 {
                let j = count_below(keep, i);
                assert(source_of(keep, n - 1, j as int) == i);
            }
        }
    }
}

/// Where `p` implies `q` below `n`, `p` counts no more than `q`.
pub proof fn lemma_count_implies(p: spec_fn(int) -> bool, q: spec_fn(int) -> bool, n: int)
    requires
        forall|k: int| 0 <= k < n && #[trigger] p(k) ==> q(k),
    ensures
        count_below(p, n) <= count_below(q, n),
    decreases n,
{
    if n > 0 {
        lemma_count_implies(p, q, n - 1);
    }
}

/// Where `p` and `q` agree below `n`, they count the same.
pub proof fn lemma_count_same(p: spec_fn(int) -> bool, q: spec_fn(int) -> bool, n: int)
    requires
        forall|k: int| 0 <= k < n ==> #[trigger] p(k) == q(k),
    ensures
        count_below(p, n) == count_below(q, n),
    decreases n,
{
    if n > 0 {
        lemma_count_same(p, q, n - 1);
    }
}

/// Leaving out one index that satisfies `p` lowers the count by one.
pub proof fn lemma_count_except(p: spec_fn(int) -> bool, m: int, n: int)
    requires
        0 <= m < n,
        p(m),
    ensures
        count_below(p, n) == count_below(except(p, m), n) + 1,
    decreases n,
{
    if m == n - 1 {
        lemma_count_same(p, except(p, m), n - 1);
    } else {
        lemma_count_except(p, m, n - 1);
    }
}

/// Where every index below `n` satisfies `r` exactly if it satisfies one
/// of `p` and `q`, and none satisfies both, `r` counts what `p` and `q`
/// count together.
pub proof fn lemma_count_sum(
    p: spec_fn(int) -> bool,
    q: spec_fn(int) -> bool,
    r: spec_fn(int) -> bool,
    n: int,
)
    requires
        forall|k: int| 0 <= k < n ==> (#[trigger] r(k) == (p(k) || q(k))) && !(p(k) && q(k)),
    ensures
        count_below(r, n) == count_below(p, n) + count_below(q, n),
    decreases n,
{
    if n > 0 {
        lemma_count_sum(p, q, r, n - 1);
        assert(r(n - 1) == (p(n - 1) || q(n - 1)));
    }
}

/// A condition that nothing satisfies counts nothing.
pub proof fn lemma_count_none(n: int)
    ensures
        count_below(|k: int| false, n) == 0,
    decreases n,
{
    if n > 0 {
        lemma_count_none(n - 1);
    }
}

/// Where no index below `n` satisfies `keep`, nothing is kept.
pub proof fn lemma_none_kept<T>(rows: Seq<T>, keep: spec_fn(int) -> bool, n: int)
    requires
        forall|i: int| 0 <= i < n ==> !#[trigger] keep(i),
    ensures
        kept(rows, keep, n) == Seq::<T>::empty(),
    decreases n,
{
    if n > 0 {
        lemma_none_kept(rows, keep, n - 1);
    }
}

} // verus!
