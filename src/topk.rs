//! Ranking a frequency table: the entries with the largest counts, without
//! changing the table.
use vstd::prelude::*;
use vstd::set_lib::{lemma_int_range, lemma_len_subset, set_int_range};
use crate::histogram::FrequencyTable;

verus! {

/// Entry `a` of `h` ranks ahead of entry `b`: a larger count, or the same
/// count and an earlier position.
pub open spec fn ranks_before(h: Seq<(Seq<u8>, u64)>, a: int, b: int) -> bool {
    h[a].1 > h[b].1 || (h[a].1 == h[b].1 && a < b)
}

/// `ix` lists, best first, the positions of the `k` entries of `h` that rank
/// ahead of all others (all of them when `h` has fewer than `k`).
pub open spec fn is_top_k(h: Seq<(Seq<u8>, u64)>, k: nat, ix: Seq<usize>) -> bool {
    &&& ix.len() == if k < h.len() { k } else { h.len() }
    &&& forall|i: int| 0 <= i < ix.len() ==> #[trigger] ix[i] < h.len()
    &&& forall|i: int, j: int|
        0 <= i < j < ix.len() ==> ranks_before(h, #[trigger] ix[i] as int, #[trigger] ix[j] as int)
    &&& forall|u: usize, i: int|
        #![trigger ix[i], ix.contains(u)]
        0 <= u < h.len() && 0 <= i < ix.len() && !ix.contains(u) ==> ranks_before(
            h,
            ix[i] as int,
            u as int,
        )
}

/// The `k` entries of `h` with the largest counts, largest first; equal
/// counts keep the table's order.
pub open spec fn top_k_of(h: Seq<(Seq<u8>, u64)>, k: nat) -> Seq<(Seq<u8>, u64)> {
    let ix = choose|ix: Seq<usize>| is_top_k(h, k, ix);
    ix.map_values(|i: usize| h[i as int])
}

/// Entry `w` ranks behind every entry of `placed` (which lists positions best first).
pub open spec fn ranks_behind_all(h: Seq<(Seq<u8>, u64)>, placed: Seq<usize>, w: int) -> bool {
    placed.len() == 0 || ranks_before(h, placed.last() as int, w)
}

proof fn lemma_top_k_agree_below(h: Seq<(Seq<u8>, u64)>, k: nat, a: Seq<usize>, b: Seq<usize>, p: int)
    requires
        is_top_k(h, k, a),
        is_top_k(h, k, b),
        0 <= p <= a.len(),
    ensures
        forall|q: int| 0 <= q < p ==> a[q] == b[q],
    decreases p,
{
    if p > 0 {
        lemma_top_k_agree_below(h, k, a, b, p - 1);
        let q = p - 1;
        if a[q] != b[q] {
            assert(ranks_before(h, a[q] as int, b[q] as int)) by {
                if a.contains(b[q]) {
                    let r = choose|r: int| 0 <= r < a.len() && a[r] == b[q];
                    if r < q {
                        assert(a[r] == b[r]);
                        assert(ranks_before(h, b[r] as int, b[q] as int));
                    }
                }
            }
            assert(ranks_before(h, b[q] as int, a[q] as int)) by {
                if b.contains(a[q]) {
                    let r = choose|r: int| 0 <= r < b.len() && b[r] == a[q];
                    if r < q {
                        assert(a[r] == b[r]);
                        assert(ranks_before(h, a[r] as int, a[q] as int));
                    }
                }
            }
        }
    }
}

/// There is only one top-`k` ranking of a table: ranking it again gives the
/// same entries in the same order.
pub proof fn lemma_top_k_unique(h: Seq<(Seq<u8>, u64)>, k: nat, a: Seq<usize>, b: Seq<usize>)
    requires
        is_top_k(h, k, a),
        is_top_k(h, k, b),
    ensures
        a == b,
{
    lemma_top_k_agree_below(h, k, a, b, a.len() as int);
    assert(a =~= b);
}

/// A list of distinct positions below `n` that is shorter than `n` leaves
/// some position out.
proof fn lemma_some_left_out(ix: Seq<usize>, n: usize)
    requires
        ix.no_duplicates(),
        ix.len() < n,
    ensures
        exists|u: usize| u < n && !ix.contains(u),
{
    if forall|u: usize| u < n ==> ix.contains(u) {
        let ints = ix.map_values(|x: usize| x as int);
        assert(ints.no_duplicates()) by {
            assert forall|i: int, j: int| 0 <= i < ints.len() && 0 <= j < ints.len() && i != j implies ints[i] != ints[j] by {
                assert(ix[i] != ix[j]);
            }
        }
        ints.unique_seq_to_set();
        lemma_int_range(0, n as int);
        assert forall|x: int| set_int_range(0, n as int).contains(x) implies ints.to_set().contains(x) by {
            let u = x as usize;
            assert(ix.contains(u));
            let i = choose|i: int| 0 <= i < ix.len() && ix[i] == u;
            assert(ints[i] == ix[i] as int);
        }
        lemma_len_subset(set_int_range(0, n as int), ints.to_set());
    }
}

/// The view of a list of (key, count) pairs.
pub open spec fn pairs_view(v: Seq<(Vec<u8>, u64)>) -> Seq<(Seq<u8>, u64)> {
    v.map_values(|e: (Vec<u8>, u64)| (e.0@, e.1))
}

impl FrequencyTable {
    /// The `k` entries with the largest counts, largest first; equal counts
    /// keep the table's order. The table is left as it was, so ranking it
    /// again gives the same list.
    pub fn top_k(&self, k: usize) -> (r: Vec<(Vec<u8>, u64)>)
        requires
            self.wf(),
        ensures
            pairs_view(r@) == top_k_of(self@, k as nat),
    {
        let ix = self.top_k_positions(k);
        let ghost h = self@;
        let mut out: Vec<(Vec<u8>, u64)> = Vec::new();
        let mut i: usize = 0;
        while i < ix.len()
            invariant
                self.wf(),
                h == self@,
                is_top_k(h, k as nat, ix@),
                0 <= i <= ix@.len(),
                pairs_view(out@) =~= ix@.take(i as int).map_values(|j: usize| h[j as int]),
            decreases ix@.len() - i,
        {
            let j = ix[i];
            assert(j < h.len());
            let key = vstd::slice::slice_to_vec(self.key(j));
            let c = self.count(j);
            let ghost before = out@;
            out.push((key, c));
            assert(ix@.take(i as int + 1) =~= ix@.take(i as int).push(j));
            assert(pairs_view(out@) =~= pairs_view(before).push(h[j as int]));
            assert(ix@.take(i as int + 1).map_values(|j: usize| h[j as int]) =~= ix@.take(
                i as int,
            ).map_values(|j: usize| h[j as int]).push(h[j as int]));
            i += 1;
        }
        proof {
            let chosen = choose|c: Seq<usize>| is_top_k(h, k as nat, c);
            lemma_top_k_unique(h, k as nat, chosen, ix@);
            assert(ix@.take(ix@.len() as int) =~= ix@);
        }
        out
    }

    /// The positions of the `k` entries with the largest counts, largest
    /// first; equal counts keep the table's order.
    pub fn top_k_positions(&self, k: usize) -> (r: Vec<usize>)
        requires
            self.wf(),
        ensures
            is_top_k(self@, k as nat, r@),
    {
        let n = self.len();
        let ghost h = self@;
        let mut ix: Vec<usize> = Vec::new();
        while ix.len() < k && ix.len() < n
            invariant
                self.wf(),
                h == self@,
                n == h.len(),
                ix@.len() <= k,
                ix@.len() <= n,
                forall|i: int| 0 <= i < ix@.len() ==> #[trigger] ix@[i] < n,
                forall|i: int, j: int|
                    0 <= i < j < ix@.len() ==> ranks_before(h, #[trigger] ix@[i] as int, #[trigger] ix@[j] as int),
                forall|u: usize, i: int|
                    #![trigger ix@[i], ix@.contains(u)]
                    0 <= u < n && 0 <= i < ix@.len() && !ix@.contains(u) ==> ranks_before(
                        h,
                        ix@[i] as int,
                        u as int,
                    ),
            decreases n - ix@.len(),
        {
            let m = ix.len();
            let ghost prev = ix@;
            // An entry is still to be placed exactly when it ranks behind the last one placed.
            let mut best: usize = n;
            let mut u: usize = 0;
            while u < n
                invariant
                    self.wf(),
                    h == self@,
                    n == h.len(),
                    ix@ == prev,
                    m == prev.len(),
                    forall|i: int| 0 <= i < prev.len() ==> #[trigger] prev[i] < n,
                    0 < n,
                    0 <= u <= n,
                    best == n || (best < u && ranks_behind_all(h, prev, best as int)),
                    forall|w: int|
                        0 <= w < u && #[trigger] ranks_behind_all(h, prev, w) ==> (best < n && (w
                            == best || ranks_before(h, best as int, w))),
                decreases n - u,
            {
                let cu = self.count(u);
                let fresh = if m == 0 {
                    true
                } else {
                    let last = ix[m - 1];
                    let cl = self.count(last);
                    cl > cu || (cl == cu && last < u)
                };
                assert(fresh == ranks_behind_all(h, prev, u as int));
                let ghost old_best = best;
                if fresh {
                    if best == n {
                        best = u;
                    } else {
                        let cb = self.count(best);
                        if cu > cb {
                            best = u;
                        }
                    }
                }
                proof {
                    assert forall|w: int|
                        0 <= w < u + 1 && #[trigger] ranks_behind_all(h, prev, w) implies (best < n
                        && (w == best || ranks_before(h, best as int, w))) by {
                        if w < u && old_best < n && best != old_best && w != old_best {
                            assert(ranks_before(h, old_best as int, w));
                        }
                    }
                }
                u += 1;
            }
            proof {
                assert(prev.no_duplicates()) by {
                    assert forall|i: int, j: int| 0 <= i < prev.len() && 0 <= j < prev.len() && i != j implies prev[i] != prev[j] by {
                        if i < j {
                            assert(ranks_before(h, prev[i] as int, prev[j] as int));
                        } else {
                            assert(ranks_before(h, prev[j] as int, prev[i] as int));
                        }
                    }
                }
                lemma_some_left_out(prev, n);
                let w = choose|w: usize| w < n && !prev.contains(w);
                if m > 0 {
                    assert(ranks_before(h, prev[m - 1] as int, w as int));
                }
                assert(ranks_behind_all(h, prev, w as int));
            }
            assert(best < n);
            proof {
                assert(!prev.contains(best)) by {
                    if prev.contains(best) {
                        let r = choose|r: int| 0 <= r < prev.len() && prev[r] == best;
                        if r < m - 1 {
                            assert(ranks_before(h, prev[r] as int, prev[m - 1] as int));
                        }
                    }
                }
            }
            ix.push(best);
            proof {
                assert forall|x: usize, i: int|
                    #![trigger ix@[i], ix@.contains(x)]
                    0 <= x < n && 0 <= i < ix@.len() && !ix@.contains(x) implies ranks_before(
                    h,
                    ix@[i] as int,
                    x as int,
                ) by {
                    assert(!prev.contains(x)) by {
                        if prev.contains(x) {
                            let r = choose|r: int| 0 <= r < prev.len() && prev[r] == x;
                            assert(ix@[r] == x);
                        }
                    }
                    assert(x != best) by {
                        assert(ix@[m as int] == best);
                    }
                    if i < m {
                        assert(ix@[i] == prev[i]);
                        assert(ranks_before(h, prev[i] as int, x as int));
                    } else {
                        if m > 0 {
                            assert(ranks_before(h, prev[m - 1] as int, x as int));
                        }
                        assert(ranks_behind_all(h, prev, x as int));
                    }
                }
                assert forall|i: int, j: int| 0 <= i < j < ix@.len() implies ranks_before(h, #[trigger] ix@[i] as int, #[trigger] ix@[j] as int) by {
                    if j == m {
                        assert(ix@[i] == prev[i]);
                    } else {
                        assert(ix@[i] == prev[i]);
                        assert(ix@[j] == prev[j]);
                    }
                }
            }
        }
        ix
    }
}

} // verus!
