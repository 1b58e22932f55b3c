//! The rate-limited forwarder: batches deltas and flushes at most one batch
//! per tick interval, so the per-file event rate never floods the display.
//!
//! Deltas accumulate as they are produced. On a tick — the driver reports
//! how many milliseconds have passed since the last flush — the accumulated
//! batch is handed over if the interval has elapsed and anything is pending;
//! otherwise the tick is silent and nothing is emitted.

use vstd::prelude::*;

use crate::rank::FinalEntry;

verus! {

/// The flush cadence, in milliseconds.
pub const TICK_MS: u64 = 100;

/// Accumulates deltas between flushes.
pub struct Forwarder {
    pending: Vec<FinalEntry>,
}

impl Forwarder {
    /// The deltas accumulated since the last flush, in arrival order.
    pub closed spec fn spec_pending(self) -> Seq<FinalEntry> {
        self.pending@
    }

    /// An empty forwarder.
    pub fn new() -> (r: Forwarder)
        ensures
            r.spec_pending().len() == 0,
    {
        Forwarder { pending: Vec::new() }
    }

    /// Accumulate one delta.
    pub fn push_delta(&mut self, key: String, bytes: u64)
        ensures
            final(self).spec_pending() == old(self).spec_pending().push((key, bytes)),
    {
        self.pending.push((key, bytes));
    }

    /// One tick, `elapsed_ms` milliseconds after the last flush. If the
    /// interval has elapsed and deltas are pending, they all leave as one
    /// batch; otherwise the tick is silent and nothing changes.
    pub fn tick(&mut self, elapsed_ms: u64) -> (flush: Option<Vec<FinalEntry>>)
        ensures
            (elapsed_ms >= TICK_MS && old(self).spec_pending().len() > 0) ==> (
            flush matches Some(b) && b@ == old(self).spec_pending()
                && final(self).spec_pending().len() == 0),
            !(elapsed_ms >= TICK_MS && old(self).spec_pending().len() > 0) ==> (flush is None
                && *final(self) == *old(self)),
    {
        if elapsed_ms >= TICK_MS && self.pending.len() > 0 {
            let mut out: Vec<FinalEntry> = Vec::new();
            core::mem::swap(&mut self.pending, &mut out);
            Some(out)
        } else {
            None
        }
    }
}

} // verus!
