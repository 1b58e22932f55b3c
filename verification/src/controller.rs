//! The scan controller: the engine's front door and its state machine.
//!
//! `start` opens a scan from the outcome of listing the root directory,
//! `poll` applies whatever the inbox has already delivered without blocking,
//! `cancel` returns to idle and, by dropping the inbox, tells the worker to
//! stop. `snapshot` is the value-typed view the display host renders.

use vstd::prelude::*;

use std::sync::mpsc::Receiver;

use crate::aggregate::{
    clip, deltas_view, is_seeded, lemma_merge_batch_monotone, merge_batch, sum_pairs, Cache,
};
use crate::rank::{clone_entries, is_ranked_of, sort_results, FinalEntry};
use crate::state::{try_recv_message, Message, ScanState};

verus! {

/// Which of the four states the engine is in, as a plain value.
#[derive(Clone, Copy, PartialEq, Eq, Structural, Debug)]
pub enum Phase {
    Idle,
    Scanning,
    Done,
    Error,
}

/// A value-typed view of the engine, fit for rendering: the phase, the
/// ranked rows, the total over all tracked children, and the error text.
pub struct Snapshot {
    pub phase: Phase,
    pub entries: Vec<FinalEntry>,
    pub total: u64,
    pub message: String,
}

/// The application state the display host owns: the path under edit, the
/// scan state, and the session-wide size cache (written at scan start,
/// reserved for future use).
pub struct TemplateApp {
    path: String,
    state: ScanState,
    cache: Cache,
    done_total: u64,
}

impl TemplateApp {
    /// The characters of the path under edit.
    pub closed spec fn spec_path(self) -> Seq<char> {
        self.path@
    }

    /// The current scan state.
    pub closed spec fn spec_state(self) -> ScanState {
        self.state
    }

    /// The session cache.
    pub closed spec fn spec_cache(self) -> Cache {
        self.cache
    }

    /// The all-children total recorded when the last scan completed.
    pub closed spec fn spec_done_total(self) -> u64 {
        self.done_total
    }

    /// Well-formed: the session cache and any in-flight aggregate have
    /// pairwise-distinct keys.
    pub open spec fn wf(self) -> bool {
        &&& self.spec_cache().wf()
        &&& (self.spec_state() matches ScanState::Scanning(p) ==> p.1.wf())
    }

    /// The path under edit.
    pub fn path(&self) -> (r: &String)
        ensures
            r@ == self.spec_path(),
    {
        &self.path
    }

    /// Replace the path under edit; nothing else changes.
    pub fn set_path(&mut self, p: String)
        requires
            old(self).wf(),
        ensures
            final(self).wf(),
            final(self).spec_path() == p@,
            final(self).spec_state() == old(self).spec_state(),
            final(self).spec_cache() == old(self).spec_cache(),
            final(self).spec_done_total() == old(self).spec_done_total(),
    {
        self.path = p;
    }
}

/// A poll kept the scan running: the aggregate grew by some delta batch, so
/// every already-tracked total is at least what it was, and no tracked child
/// was dropped.
pub open spec fn poll_kept_scanning(pre: TemplateApp, post: TemplateApp) -> bool {
    pre.spec_state() matches ScanState::Scanning(p) && (post.spec_state()
        matches ScanState::Scanning(q) && q.1.wf() && (exists|b: Seq<(Seq<char>, u64)>|
        q.1.as_map() == merge_batch(p.1.as_map(), b)) && (forall|k: Seq<char>|
        p.1.as_map().dom().contains(k) ==> q.1.as_map().dom().contains(k)
            && #[trigger] q.1.as_map()[k] >= p.1.as_map()[k]) && post.spec_done_total()
        == pre.spec_done_total())
}

/// A poll saw the terminal signal: the final aggregate was ranked, its
/// all-children total recorded, and the state moved to *Done*.
pub open spec fn poll_finished(pre: TemplateApp, post: TemplateApp) -> bool {
    pre.spec_state() matches ScanState::Scanning(p) && (post.spec_state() matches ScanState::Done(
        d,
    ) && is_ranked_of(d@, p.1.pairs()) && post.spec_done_total() == clip(sum_pairs(p.1.pairs())))
}

impl Default for TemplateApp {
    /// A fresh controller: idle, empty session cache, a default path.
    fn default() -> (r: TemplateApp)
        ensures
            r.wf(),
            r.spec_state() is Idle,
            r.spec_path() == "C:\\Projects\\rust"@,
            r.spec_cache().as_map() == Map::<Seq<char>, u64>::empty(),
            r.spec_done_total() == 0,
    {
        TemplateApp {
            path: "C:\\Projects\\rust".to_owned(),
            state: ScanState::Idle,
            cache: Cache::new(),
            done_total: 0,
        }
    }
}

impl TemplateApp {
    /// Begin a scan from the outcome of listing the root directory.
    ///
    /// A successful listing (the unique names of the root's readable
    /// children) moves to *Scanning* with a zero-seeded aggregate wired to
    /// `inbox`; a failed listing moves to *Error* with its message. Either
    /// way the scan-start sentinel is written to the session cache.
    pub fn start(&mut self, listing: Result<Vec<String>, String>, inbox: Receiver<Message>)
        requires
            old(self).wf(),
            !(old(self).spec_state() matches ScanState::Scanning(_)),
            listing matches Ok(keys) ==> forall|i: int, j: int|
                0 <= i < j < keys@.len() ==> keys@[i]@ != keys@[j]@,
        ensures
            final(self).wf(),
            final(self).spec_path() == old(self).spec_path(),
            final(self).spec_done_total() == old(self).spec_done_total(),
            final(self).spec_cache().as_map() == old(self).spec_cache().as_map().insert(
                "Test"@,
                2u64,
            ),
            listing matches Ok(keys) ==> (final(self).spec_state() matches ScanState::Scanning(p)
                && p.1.wf() && is_seeded(p.1, keys@)),
            listing matches Err(m) ==> (final(self).spec_state() matches ScanState::Error(e) && e@
                == m@),
    {
        let sentinel = "Test".to_owned();
        self.cache.insert(&sentinel, 2);
        match listing {
            Ok(keys) => {
                let agg = Cache::from_keys(&keys);
                self.state = ScanState::Scanning((inbox, agg));
            },
            Err(m) => {
                self.state = ScanState::Error(m);
            },
        }
    }

    /// Request cancellation: back to *Idle*. Dropping the scanning state
    /// closes the inbox, which the worker observes on its next send.
    pub fn cancel(&mut self)
        requires
            old(self).wf(),
        ensures
            final(self).wf(),
            final(self).spec_state() is Idle,
            final(self).spec_path() == old(self).spec_path(),
            final(self).spec_cache() == old(self).spec_cache(),
            final(self).spec_done_total() == old(self).spec_done_total(),
    {
        self.state = ScanState::Idle;
    }

    /// Apply at most one message already queued in the inbox, without
    /// blocking: a delta batch is merged additively into the aggregate (so
    /// every tracked total only ever grows), the terminal signal ranks the
    /// aggregate and moves to *Done*. In any state but *Scanning* nothing
    /// happens at all.
    pub fn poll(&mut self)
        requires
            old(self).wf(),
        ensures
            final(self).wf(),
            final(self).spec_path() == old(self).spec_path(),
            final(self).spec_cache() == old(self).spec_cache(),
            !(old(self).spec_state() matches ScanState::Scanning(_)) ==> *final(self) == *old(
                self,
            ),
            old(self).spec_state() matches ScanState::Scanning(p) ==> (poll_kept_scanning(
                *old(self),
                *final(self),
            ) || poll_finished(*old(self), *final(self))),
    {
        let mut st = ScanState::Idle;
        core::mem::swap(&mut self.state, &mut st);
        match st {
            ScanState::Scanning((rx, mut agg)) => {
                let ghost m0 = agg.as_map();
                match try_recv_message(&rx) {
                    Some(Message::Intermediate(batch)) => {
                        agg.apply_batch(&batch);
                        proof {
                            lemma_merge_batch_monotone(m0, deltas_view(batch@));
                        }
                        self.state = ScanState::Scanning((rx, agg));
                    },
                    Some(Message::Done) => {
                        let ranked = sort_results(&agg);
                        self.done_total = agg.total();
                        self.state = ScanState::Done(ranked);
                    },
                    None => {
                        proof {
                            assert(m0 == merge_batch(m0, Seq::<(Seq<char>, u64)>::empty()));
                        }
                        self.state = ScanState::Scanning((rx, agg));
                    },
                }
            },
            other => {
                self.state = other;
            },
        }
    }

    /// The value-typed view of the current state, for rendering: ranked rows
    /// and the total over all tracked children (not only the rows shown).
    pub fn snapshot(&self) -> (snap: Snapshot)
        requires
            self.wf(),
        ensures
            match self.spec_state() {
                ScanState::Idle => snap.phase is Idle && snap.entries@.len() == 0 && snap.total
                    == 0 && snap.message@.len() == 0,
                ScanState::Scanning(p) => snap.phase is Scanning && is_ranked_of(
                    snap.entries@,
                    p.1.pairs(),
                ) && snap.total == clip(sum_pairs(p.1.pairs())) && snap.message@.len() == 0,
                ScanState::Done(d) => snap.phase is Done && snap.entries@ == d@ && snap.total
                    == self.spec_done_total() && snap.message@.len() == 0,
                ScanState::Error(m) => snap.phase is Error && snap.entries@.len() == 0 && snap.total
                    == 0 && snap.message@ == m@,
            },
    {
        match &self.state {
            ScanState::Idle => Snapshot {
                phase: Phase::Idle,
                entries: Vec::new(),
                total: 0,
                message: String::new(),
            },
            ScanState::Scanning(p) => {
                let entries = sort_results(&p.1);
                let total = p.1.total();
                Snapshot { phase: Phase::Scanning, entries, total, message: String::new() }
            },
            ScanState::Done(d) => {
                let entries = clone_entries(d);
                Snapshot {
                    phase: Phase::Done,
                    entries,
                    total: self.done_total,
                    message: String::new(),
                }
            },
            ScanState::Error(m) => Snapshot {
                phase: Phase::Error,
                entries: Vec::new(),
                total: 0,
                message: m.clone(),
            },
        }
    }
}

} // verus!
