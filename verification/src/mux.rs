//! The multiplexer: fair round-robin interleaving of the per-child
//! traversals in bounded work slices.
//!
//! A pass visits every still-active child exactly once, in order; from each
//! visit the driver consumes up to `BATCH_BOUND` filesystem entries and
//! reports them back, which yields one delta. A child whose batch comes back
//! empty is exhausted and skipped on later passes; the scan terminates when
//! every child is exhausted. Because every pass plans every active child,
//! no child is ever starved and short subtrees surface early.

use vstd::prelude::*;

use crate::rank::FinalEntry;

verus! {

/// How many filesystem entries one work slice may consume.
pub const BATCH_BOUND: usize = 1024;

/// `plan` visits exactly the active children, in order, once each.
pub open spec fn is_pass(plan: Seq<usize>, active: Seq<bool>) -> bool {
    &&& forall|t: int|
        0 <= t < plan.len() ==> plan[t] < active.len() && active[#[trigger] plan[t] as int]
    &&& forall|i: usize| i < active.len() && active[i as int] ==> plan.contains(i)
    &&& forall|a: int, b: int| 0 <= a < b < plan.len() ==> plan[a] < plan[b]
}

/// Interleaves the traversals of the scan root's children.
pub struct Multiplexer {
    keys: Vec<String>,
    active: Vec<bool>,
}

impl Multiplexer {
    /// The child names, in root-listing order.
    pub closed spec fn spec_keys(self) -> Seq<String> {
        self.keys@
    }

    /// Which children still have traversal work left.
    pub closed spec fn spec_active(self) -> Seq<bool> {
        self.active@
    }

    /// One activity flag per child.
    pub open spec fn wf(self) -> bool {
        self.spec_keys().len() == self.spec_active().len()
    }

    /// A multiplexer over one traversal per child, all initially active.
    pub fn new(keys: Vec<String>) -> (r: Multiplexer)
        ensures
            r.wf(),
            r.spec_keys() == keys@,
            forall|i: int| 0 <= i < keys@.len() ==> r.spec_active()[i],
    {
        let n = keys.len();
        let mut active: Vec<bool> = Vec::new();
        let mut i: usize = 0;
        while i < n
            invariant
                i <= n,
                active@.len() == i,
                forall|j: int| 0 <= j < i ==> active@[j],
            decreases n - i,
        {
            active.push(true);
            i += 1;
        }
        Multiplexer { keys, active }
    }

    /// Plan one fair pass: the indices of every still-active child, in
    /// order, each exactly once. This is the scheduling guarantee that no
    /// active child is starved.
    pub fn plan_pass(&self) -> (plan: Vec<usize>)
        requires
            self.wf(),
        ensures
            is_pass(plan@, self.spec_active()),
    {
        let n = self.active.len();
        let mut plan: Vec<usize> = Vec::new();
        let mut i: usize = 0;
        while i < n
            invariant
                n == self.active@.len(),
                i <= n,
                forall|t: int|
                    0 <= t < plan@.len() ==> plan@[t] < i && self.active@[
                    #[trigger] plan@[t] as int],
                forall|j: usize| j < i && self.active@[j as int] ==> plan@.contains(j),
                forall|a: int, b: int| 0 <= a < b < plan@.len() ==> plan@[a] < plan@[b],
            decreases n - i,
        {
            if self.active[i] {
                let ghost before = plan@;
                plan.push(i);
                proof {
                    assert forall|j: usize| j < i + 1 && self.active@[j as int] implies plan@
                        .contains(j) by {
                        if j < i {
                            assert(before.contains(j));
                            let t = choose|t: int| 0 <= t < before.len() && before[t] == j;
                            assert(plan@[t] == j);
                        } else {
                            assert(plan@[before.len() as int] == j);
                        }
                    }
                }
            }
            i += 1;
        }
        plan
    }

    /// Record the outcome of one work slice for child `i`: `entry_count`
    /// filesystem entries were consumed, holding `bytes` bytes of regular
    /// files in all. A non-empty slice yields the child's delta; an empty
    /// one exhausts the child, which later passes skip.
    pub fn record_batch(&mut self, i: usize, entry_count: usize, bytes: u64) -> (delta: Option<
        FinalEntry,
    >)
        requires
            old(self).wf(),
            i < old(self).spec_active().len(),
            old(self).spec_active()[i as int],
        ensures
            final(self).wf(),
            final(self).spec_keys() == old(self).spec_keys(),
            entry_count == 0 ==> final(self).spec_active() == old(self).spec_active().update(
                i as int,
                false,
            ) && delta is None,
            entry_count > 0 ==> final(self).spec_active() == old(self).spec_active() && (
            delta matches Some(d) && d.0@ == old(self).spec_keys()[i as int]@ && d.1 == bytes),
    {
        if entry_count == 0 {
            self.active[i] = false;
            None
        } else {
            let k = self.keys[i].clone();
            proof {
                assert(self.active@ =~= old(self).spec_active());
            }
            Some((k, bytes))
        }
    }

    /// Is every traversal exhausted? When so, the scan emits its terminal
    /// signal.
    pub fn all_exhausted(&self) -> (r: bool)
        requires
            self.wf(),
        ensures
            r == (forall|i: int| 0 <= i < self.spec_active().len() ==> !self.spec_active()[i]),
    {
        let n = self.active.len();
        let mut i: usize = 0;
        while i < n
            invariant
                n == self.active@.len(),
                i <= n,
                forall|j: int| 0 <= j < i ==> !self.active@[j],
            decreases n - i,
        {
            if self.active[i] {
                proof {
                    assert(self.spec_active()[i as int]);
                }
                return false;
            }
            i += 1;
        }
        true
    }
}

} // verus!
