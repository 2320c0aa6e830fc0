use vstd::prelude::*;
use crate::analyzer::frequency::{Counts, counts_view};

verus! {

/// Entry `i` of the table ranks before entry `j`: a higher count, or the same count and
/// seen first.
pub open spec fn ranks_before(t: Counts, i: int, j: int) -> bool {
    t[i].1 > t[j].1 || (t[i].1 == t[j].1 && i < j)
}

/// How many of the first `n` entries of the table rank before entry `i`.
pub open spec fn rank_upto(t: Counts, i: int, n: int) -> nat
    decreases n,
{
    if n <= 0 {
        0
    } else {
        rank_upto(t, i, n - 1) + if ranks_before(t, n - 1, i) {
            1nat
        } else {
            0nat
        }
    }
}

/// The place of entry `i` in the ranking, counting from 0.
pub open spec fn rank(t: Counts, i: int) -> nat {
    rank_upto(t, i, t.len() as int)
}

/// `r` lists the `k` best-ranked entries of `t` (all of them if there are fewer), best first.
pub open spec fn is_top(t: Counts, k: nat, r: Counts) -> bool {
    &&& r.len() == (if k < t.len() {
        k
    } else {
        t.len()
    })
    &&& forall|p: int| 0 <= p < r.len() ==> #[trigger] placed(t, r, p)
}

/// Place `p` of `r` holds the entry of `t` that ranks `p`-th.
pub open spec fn placed(t: Counts, r: Counts, p: int) -> bool {
    exists|i: int| 0 <= i < t.len() && #[trigger] rank(t, i) == p && r[p] == t[i]
}

proof fn lemma_rank_shift(t: Counts, b: int, prev: int, n: int)
    requires
        0 <= n <= t.len(),
        0 <= prev < t.len(),
        forall|j: int|
            0 <= j < t.len() ==> (ranks_before(t, j, b) <==> (ranks_before(t, j, prev) || j == prev)),
    ensures
        rank_upto(t, b, n) == rank_upto(t, prev, n) + if prev < n {
            1nat
        } else {
            0nat
        },
    decreases n,
{
    if n > 0 {
        lemma_rank_shift(t, b, prev, n - 1);
        assert(ranks_before(t, n - 1, b) <==> (ranks_before(t, n - 1, prev) || n - 1 == prev));
    }
}

proof fn lemma_rank_first(t: Counts, b: int, n: int)
    requires
        0 <= n <= t.len(),
        forall|j: int| 0 <= j < t.len() ==> !ranks_before(t, j, b),
    ensures
        rank_upto(t, b, n) == 0,
    decreases n,
{
    if n > 0 {
        lemma_rank_first(t, b, n - 1);
        assert(!ranks_before(t, n - 1, b));
    }
}

proof fn lemma_rank_last(t: Counts, x: int, n: int)
    requires
        0 <= n <= t.len(),
        0 <= x < t.len(),
        forall|j: int| 0 <= j < t.len() && j != x ==> ranks_before(t, j, x),
    ensures
        rank_upto(t, x, n) == n - if x < n {
            1int
        } else {
            0int
        },
    decreases n,
{
    if n > 0 {
        lemma_rank_last(t, x, n - 1);
        if n - 1 != x {
            assert(ranks_before(t, n - 1, x));
        }
    }
}

proof fn lemma_rank_strict(t: Counts, i: int, j: int, n: int)
    requires
        0 <= n <= t.len(),
        0 <= i < t.len(),
        0 <= j < t.len(),
        ranks_before(t, i, j),
    ensures
        rank_upto(t, i, n) + (if i < n {
            1int
        } else {
            0int
        }) <= rank_upto(t, j, n),
    decreases n,
{
    if n > 0 {
        lemma_rank_strict(t, i, j, n - 1);
        if ranks_before(t, n - 1, i) {
            assert(ranks_before(t, n - 1, j));
        }
    }
}

/// Two distinct entries never share a place in the ranking.
pub proof fn lemma_rank_injective(t: Counts, i: int, j: int)
    requires
        0 <= i < t.len(),
        0 <= j < t.len(),
        i != j,
    ensures
        rank(t, i) != rank(t, j),
{
    if ranks_before(t, i, j) {
        lemma_rank_strict(t, i, j, t.len() as int);
    } else {
        lemma_rank_strict(t, j, i, t.len() as int);
    }
}

/// The ranking is a function of the table: two lists that both hold its `k` best entries
/// are the same list.
pub proof fn lemma_top_unique(t: Counts, k: nat, r1: Counts, r2: Counts)
    requires
        is_top(t, k, r1),
        is_top(t, k, r2),
    ensures
        r1 == r2,
{
    assert forall|p: int| 0 <= p < r1.len() implies r1[p] == r2[p] by {
        assert(placed(t, r1, p) && placed(t, r2, p));
        let i1 = choose|i: int| 0 <= i < t.len() && #[trigger] rank(t, i) == p && r1[p] == t[i];
        let i2 = choose|i: int| 0 <= i < t.len() && #[trigger] rank(t, i) == p && r2[p] == t[i];
        if i1 != i2 {
            lemma_rank_injective(t, i1, i2);
        }
    }
    assert(r1 =~= r2);
}

/// Entry `x` comes after `prev` in the ranking, or nothing has been placed yet.
spec fn follows(t: Counts, started: bool, prev: int, x: int) -> bool {
    !started || ranks_before(t, prev, x)
}

/// The `k` entries of `table` with the highest counts, best first; equal counts keep the
/// order of the table.
pub fn top_entries(table: &Vec<(String, usize)>, k: usize) -> (r: Vec<(String, usize)>)
    ensures
        is_top(counts_view(table@), k as nat, counts_view(r@)),
{
    let ghost t = counts_view(table@);
    let n = table.len();
    let mut out: Vec<(String, usize)> = Vec::new();
    let ghost mut chosen: Seq<int> = Seq::empty();
    let mut prev: usize = 0;
    while out.len() < k && out.len() < n
        invariant
            t == counts_view(table@),
            n == table@.len(),
            out@.len() <= k,
            out@.len() <= n,
            chosen.len() == out@.len(),
            forall|q: int|
                0 <= q < chosen.len() ==> 0 <= #[trigger] chosen[q] < n && rank(t, chosen[q]) == q
                    && counts_view(out@)[q] == t[chosen[q]],
            out@.len() > 0 ==> prev == chosen.last(),
        decreases n - out@.len(),
    {
        let ghost started = out@.len() > 0;
        let mut best: usize = 0;
        let mut found = false;
        let mut j: usize = 0;
        while j < n
            invariant
                t == counts_view(table@),
                n == table@.len(),
                j <= n,
                out@.len() < n,
                started == (out@.len() > 0),
                best < n,
                out@.len() > 0 ==> prev < n,
                found ==> best < j && follows(t, started, prev as int, best as int),
                found ==> forall|x: int|
                    0 <= x < j && #[trigger] follows(t, started, prev as int, x)
                        ==> !ranks_before(t, x, best as int),
                !found ==> forall|x: int|
                    0 <= x < j ==> !#[trigger] follows(t, started, prev as int, x),
            decreases n - j,
        {
            let cj = table[j].1;
            assert(t[j as int].1 == cj as nat);
            assert(t[best as int].1 == table@[best as int].1 as nat);
            if out.len() > 0 {
                assert(t[prev as int].1 == table@[prev as int].1 as nat);
            }
            let eligible = out.len() == 0 || table[prev].1 > cj || (table[prev].1 == cj && prev < j);
            assert(eligible == follows(t, started, prev as int, j as int));
            if eligible && (!found || cj > table[best].1) {
                best = j;
                found = true;
            }
            j = j + 1;
        }
        proof {
            if out@.len() == 0 {
                if !found {
                    assert(!follows(t, false, prev as int, 0));
                }
                assert forall|x: int| 0 <= x < t.len() implies !ranks_before(t, x, best as int) by {
                    assert(follows(t, false, prev as int, x));
                }
                lemma_rank_first(t, best as int, n as int);
            } else {
                let p = prev as int;
                if !found {
                    assert forall|x: int| 0 <= x < t.len() && x != p implies ranks_before(t, x, p) by {
                        assert(!follows(t, true, p, x));
                    }
                    lemma_rank_last(t, p, n as int);
                    assert(false);
                }
                assert forall|x: int| 0 <= x < t.len() implies (ranks_before(t, x, best as int) <==> (
                ranks_before(t, x, p) || x == p)) by {
                    if ranks_before(t, x, best as int) && !ranks_before(t, x, p) && x != p {
                        assert(follows(t, true, p, x));
                    }
                }
                lemma_rank_shift(t, best as int, p, n as int);
            }
        }
        let item = (table[best].0.clone(), table[best].1);
        out.push(item);
        proof {
            chosen = chosen.push(best as int);
            assert(counts_view(out@)[chosen.len() - 1] == t[best as int]);
        }
        prev = best;
    }
    proof {
        let r = counts_view(out@);
        let kn = k as nat;
        assert(r.len() == if kn < t.len() { kn } else { t.len() });
        assert forall|p: int| 0 <= p < r.len() implies #[trigger] placed(t, r, p) by {
            assert(rank(t, chosen[p]) == p);
        }
    }
    out
}

} // verus!
