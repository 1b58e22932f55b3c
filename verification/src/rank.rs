//! Ranking: turn the aggregate table into the displayed list, sorted by
//! byte count descending and cut to the ten largest children.
//!
//! The contract pins the result down as a descending prefix of the tracked
//! entries: it has `min(10, n)` entries drawn from the table, it is sorted,
//! and every tracked entry left out is no larger than any entry shown.

use vstd::prelude::*;

use crate::aggregate::Cache;

verus! {

/// One row of the ranked view: child name and its byte total.
pub type FinalEntry = (String, u64);

/// How many rows the ranked view keeps.
pub const TOP_N: usize = 10;

/// Sorted by byte count, largest first.
pub open spec fn sorted_desc(s: Seq<(String, u64)>) -> bool {
    forall|i: int, j: int| 0 <= i < j < s.len() ==> s[i].1 >= s[j].1
}

/// `r` is the ranked view of the tracked pairs `s`: a descending-by-bytes
/// selection of the `min(10, |s|)` largest entries of `s`.
pub open spec fn is_ranked_of(r: Seq<(String, u64)>, s: Seq<(String, u64)>) -> bool {
    &&& r.len() == vstd::math::min(TOP_N as int, s.len() as int)
    &&& sorted_desc(r)
    &&& r.to_multiset().subset_of(s.to_multiset())
    &&& forall|p: (String, u64), i: int|
        s.to_multiset().sub(r.to_multiset()).count(p) > 0 && 0 <= i < r.len() ==> r[i].1 >= p.1
}

/// A copy of a list of rows.
pub fn clone_entries(v: &Vec<FinalEntry>) -> (r: Vec<FinalEntry>)
    ensures
        r@ == v@,
{
    let n = v.len();
    let mut r: Vec<FinalEntry> = Vec::new();
    let mut i: usize = 0;
    while i < n
        invariant
            n == v@.len(),
            i <= n,
            r@.len() == i,
            forall|j: int| 0 <= j < i ==> r@[j] == v@[j],
        decreases n - i,
    {
        let k = v[i].0.clone();
        let b = v[i].1;
        r.push((k, b));
        i += 1;
    }
    proof {
        assert(r@ =~= v@);
    }
    r
}

/// The index of a largest element.
fn max_index(v: &Vec<(String, u64)>) -> (r: usize)
    requires
        v@.len() > 0,
    ensures
        r < v@.len(),
        forall|j: int| 0 <= j < v@.len() ==> v@[r as int].1 >= v@[j].1,
{
    let n = v.len();
    let mut best: usize = 0;
    let mut i: usize = 1;
    while i < n
        invariant
            n == v@.len(),
            best < i <= n,
            0 < n,
            forall|j: int| 0 <= j < i ==> v@[best as int].1 >= v@[j].1,
        decreases n - i,
    {
        if v[i].1 > v[best].1 {
            best = i;
        }
        i += 1;
    }
    best
}

/// Sort the pairs by byte count, largest first; a permutation of the input.
fn sort_desc(input: Vec<(String, u64)>) -> (r: Vec<(String, u64)>)
    ensures
        r@.len() == input@.len(),
        sorted_desc(r@),
        r@.to_multiset() == input@.to_multiset(),
{
    broadcast use vstd::multiset::group_multiset_axioms;
    broadcast use vstd::seq_lib::group_to_multiset_ensures;

    let ghost orig = input@;
    let mut v = input;
    let mut out: Vec<(String, u64)> = Vec::new();
    while v.len() > 0
        invariant
            out@.to_multiset().add(v@.to_multiset()) =~= orig.to_multiset(),
            out@.len() + v@.len() == orig.len(),
            sorted_desc(out@),
            forall|i: int, j: int|
                0 <= i < out@.len() && 0 <= j < v@.len() ==> out@[i].1 >= v@[j].1,
        decreases v@.len(),
    {
        let ghost out0 = out@;
        let ghost v0 = v@;
        let m = max_index(&v);
        let e = v.remove(m);
        out.push(e);
        proof {
            v0.to_multiset_ensures();
            assert(v0.contains(v0[m as int]));
            assert(v0.to_multiset().count(e) > 0);
            vstd::seq_lib::to_multiset_remove(v0, m as int);
            vstd::seq_lib::to_multiset_build(out0, e);
            assert(v@.to_multiset() =~= v0.to_multiset().remove(e));
            assert(out@.to_multiset() =~= out0.to_multiset().insert(e));
            assert(out@.to_multiset().add(v@.to_multiset()) =~= out0.to_multiset().add(
                v0.to_multiset(),
            )) by {
                assert forall|x: (String, u64)|
                    out@.to_multiset().add(v@.to_multiset()).count(x) == out0.to_multiset().add(
                        v0.to_multiset(),
                    ).count(x) by {
                    assert(v0.to_multiset().count(e) > 0);
                }
            }
            assert forall|i: int, j: int|
                0 <= i < out@.len() && 0 <= j < v@.len() implies out@[i].1 >= v@[j].1 by {
                if i < out0.len() {
                    assert(out@[i] == out0[i]);
                } else {
                    assert(out@[i] == e);
                }
                if j < m {
                    assert(v@[j] == v0[j]);
                } else {
                    assert(v@[j] == v0[j + 1]);
                }
            }
            assert forall|i: int, j: int|
                0 <= i < j < out@.len() implies out@[i].1 >= out@[j].1 by {
                if j == out0.len() {
                    assert(v0.to_multiset().count(out@[j]) > 0);
                    assert(v0.contains(out@[j]));
                }
            }
        }
    }
    out
}

/// Rank the tracked children: sort by byte count descending and keep the
/// ten largest.
///
/// Every row comes from the table, the rows are sorted largest first, and
/// every tracked entry that is not shown is no larger than any shown row.
pub fn sort_results(cache: &Cache) -> (r: Vec<FinalEntry>)
    ensures
        is_ranked_of(r@, cache.pairs()),
{
    broadcast use vstd::multiset::group_multiset_axioms;
    broadcast use vstd::seq_lib::group_to_multiset_ensures;

    let entries = cache.entries_cloned();
    let mut out = sort_desc(entries);
    let ghost full = out@;
    out.truncate(TOP_N);
    proof {
        if full.len() <= TOP_N {
            assert(out@ =~= full);
            assert forall|p: (String, u64)|
                cache.pairs().to_multiset().sub(out@.to_multiset()).count(p) == 0 by {}
        } else {
            assert(out@ =~= full.subrange(0, TOP_N as int));
            let tail = full.subrange(TOP_N as int, full.len() as int);
            assert(full =~= out@ + tail);
            vstd::seq_lib::lemma_multiset_commutative(out@, tail);
            assert forall|p: (String, u64), i: int|
                cache.pairs().to_multiset().sub(out@.to_multiset()).count(p) > 0 && 0 <= i
                    < out@.len() implies out@[i].1 >= p.1 by {
                assert(tail.to_multiset().count(p) > 0);
                assert(tail.contains(p));
                let t = choose|t: int| 0 <= t < tail.len() && tail[t] == p;
                assert(full[TOP_N + t] == p);
                assert(full[i].1 >= full[TOP_N + t].1);
            }
        }
    }
    out
}

} // verus!
