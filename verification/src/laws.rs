//! The engine's global guarantees, stated and proved over the same models
//! the component contracts use: conservation of delivered deltas across a
//! whole scan, fairness of the pass schedule, and safety of cancellation.

use vstd::prelude::*;

use crate::aggregate::{merge_batch, merge_one};
use crate::mux::is_pass;

verus! {

/// The bytes a single batch carries for the child named `k`.
pub open spec fn key_sum_batch(b: Seq<(Seq<char>, u64)>, k: Seq<char>) -> int
    decreases b.len(),
{
    if b.len() == 0 {
        0
    } else {
        key_sum_batch(b.drop_last(), k) + (if b.last().0 == k {
            b.last().1 as int
        } else {
            0
        })
    }
}

/// The bytes a whole run of batches carries for the child named `k`.
pub open spec fn key_sum(bs: Seq<Seq<(Seq<char>, u64)>>, k: Seq<char>) -> int
    decreases bs.len(),
{
    if bs.len() == 0 {
        0
    } else {
        key_sum(bs.drop_last(), k) + key_sum_batch(bs.last(), k)
    }
}

/// Merging a run of batches, in delivery order.
pub open spec fn merge_batches(
    m: Map<Seq<char>, u64>,
    bs: Seq<Seq<(Seq<char>, u64)>>,
) -> Map<Seq<char>, u64>
    decreases bs.len(),
{
    if bs.len() == 0 {
        m
    } else {
        merge_batch(merge_batches(m, bs.drop_last()), bs.last())
    }
}

/// A batch never carries a negative byte count for any child.
pub proof fn lemma_key_sum_batch_nonneg(b: Seq<(Seq<char>, u64)>, k: Seq<char>)
    ensures
        key_sum_batch(b, k) >= 0,
    decreases b.len(),
{
    if b.len() > 0 {
        lemma_key_sum_batch_nonneg(b.drop_last(), k);
    }
}

/// Merging one batch adds exactly that batch's bytes to a tracked child,
/// provided the running total does not overflow.
pub proof fn lemma_merge_batch_tracked(
    m: Map<Seq<char>, u64>,
    b: Seq<(Seq<char>, u64)>,
    k: Seq<char>,
)
    requires
        m.dom().contains(k),
        m[k] + key_sum_batch(b, k) <= u64::MAX,
    ensures
        merge_batch(m, b).dom().contains(k),
        merge_batch(m, b)[k] == m[k] + key_sum_batch(b, k),
    decreases b.len(),
{
    if b.len() > 0 {
        let b0 = b.drop_last();
        if b.last().0 == k {
            assert(key_sum_batch(b, k) == key_sum_batch(b0, k) + b.last().1);
        } else {
            assert(key_sum_batch(b, k) == key_sum_batch(b0, k));
        }
        lemma_merge_batch_tracked(m, b0, k);
        let m1 = merge_batch(m, b0);
        if b.last().0 == k {
            assert(merge_one(m1, b.last().0, b.last().1)[k] == m1[k] + b.last().1);
        } else {
            assert(merge_one(m1, b.last().0, b.last().1)[k] == m1[k]);
        }
    }
}

/// *Conservation.* A scan that runs to completion delivers, for every child
/// tracked from the start at zero, a final total equal to the sum of every
/// byte its traversal ever put into a batch — no delta is lost and none is
/// applied twice — provided that sum fits in a `u64`.
pub proof fn lemma_conservation(
    m0: Map<Seq<char>, u64>,
    bs: Seq<Seq<(Seq<char>, u64)>>,
    k: Seq<char>,
)
    requires
        m0.dom().contains(k),
        m0[k] == 0,
        key_sum(bs, k) <= u64::MAX,
    ensures
        merge_batches(m0, bs).dom().contains(k),
        merge_batches(m0, bs)[k] == key_sum(bs, k),
    decreases bs.len(),
{
    if bs.len() > 0 {
        let bs0 = bs.drop_last();
        lemma_key_sum_batch_nonneg(bs.last(), k);
        assert(key_sum(bs0, k) <= key_sum(bs, k)) by {
            lemma_key_sum_nonneg_suffix(bs, k);
        }
        lemma_conservation(m0, bs0, k);
        lemma_merge_batch_tracked(merge_batches(m0, bs0), bs.last(), k);
    }
}

/// Every batch of a run contributes a non-negative byte count.
proof fn lemma_key_sum_nonneg_suffix(bs: Seq<Seq<(Seq<char>, u64)>>, k: Seq<char>)
    requires
        bs.len() > 0,
    ensures
        key_sum(bs.drop_last(), k) <= key_sum(bs, k),
{
    lemma_key_sum_batch_nonneg(bs.last(), k);
}

/// *Fairness.* Over any run of passes, a child that stays active is planned
/// in every single pass: the number of slices it receives equals the number
/// of passes, so no active child is ever starved by the multiplexer.
pub proof fn lemma_no_starvation(plans: Seq<Seq<usize>>, actives: Seq<Seq<bool>>, i: usize)
    requires
        plans.len() == actives.len(),
        forall|t: int| 0 <= t < plans.len() ==> is_pass(#[trigger] plans[t], actives[t]),
        forall|t: int|
            0 <= t < actives.len() ==> i < (#[trigger] actives[t]).len() && actives[t][i as int],
    ensures
        forall|t: int| 0 <= t < plans.len() ==> (#[trigger] plans[t]).contains(i),
{
}

/// An inbox event, as the model sees it: a batch of deltas or the terminal
/// signal.
pub enum Event {
    Deltas(Seq<(Seq<char>, u64)>),
    Terminal,
}

/// The engine's state, as the model sees it: the phase, with the in-flight
/// aggregate while scanning.
pub enum Model {
    Idle,
    Scanning(Map<Seq<char>, u64>),
    Done,
    Error,
}

/// How a poll reacts to one inbox event: while scanning, a delta batch is
/// merged and the terminal signal completes the scan; in every other phase
/// the event has no effect at all.
pub open spec fn poll_step(s: Model, e: Event) -> Model {
    match s {
        Model::Scanning(m) => match e {
            Event::Deltas(b) => Model::Scanning(merge_batch(m, b)),
            Event::Terminal => Model::Done,
        },
        _ => s,
    }
}

/// A run of polls, each applying one inbox event in order.
pub open spec fn run_polls(s: Model, es: Seq<Event>) -> Model
    decreases es.len(),
{
    if es.len() == 0 {
        s
    } else {
        run_polls(poll_step(s, es.first()), es.drop_first())
    }
}

/// *Cancellation safety.* Cancellation puts the engine in *Idle*; from there,
/// any number of polls — whatever deltas or terminal signals a lingering
/// worker still produced — leaves it in *Idle* and applies none of them.
pub proof fn lemma_cancellation_safety(es: Seq<Event>)
    ensures
        run_polls(Model::Idle, es) == Model::Idle,
    decreases es.len(),
{
    if es.len() > 0 {
        lemma_cancellation_safety(es.drop_first());
    }
}

} // verus!
