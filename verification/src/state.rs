//! The scan state and the inbox over which a running scan delivers its
//! batched deltas and its terminal signal.
//!
//! The inbox endpoint is a non-blocking channel receiver. The worker that
//! owns the sending half performs the filesystem reads; dropping the state
//! that holds the receiver is the engine's cancellation cue, which the worker
//! observes on its next attempted send.

use vstd::prelude::*;

use std::sync::mpsc::Receiver;

use crate::aggregate::Cache;
use crate::rank::FinalEntry;

verus! {

/// Declared so the inbox endpoint can sit inside `ScanState`; the type is
/// opaque and only `try_recv_message` touches it.
#[verifier::external_type_specification]
#[verifier::external_body]
#[verifier::reject_recursive_types(T)]
pub struct ExReceiver<T>(Receiver<T>);

/// What a running scan delivers to the controller.
pub enum Message {
    /// A batch of `(child name, bytes)` deltas to merge into the aggregate.
    Intermediate(Vec<FinalEntry>),
    /// The terminal signal: every traversal is exhausted.
    Done,
}

/// The engine's single piece of scan state.
pub enum ScanState {
    /// No scan in progress, nothing to show.
    Idle,
    /// A scan is running: the delivery endpoint and the in-flight aggregate.
    Scanning((Receiver<Message>, Cache)),
    /// The last completed scan's final ranked list.
    Done(Vec<FinalEntry>),
    /// The last scan attempt failed before any traversal began.
    Error(String),
}

/// Relies on `std::sync::mpsc::Receiver::try_recv`: it hands out a message
/// already queued on the channel without blocking, or nothing at all. Which
/// message arrives, if any, depends on the sending side, so nothing is
/// promised of the result.
#[verifier::external_body]
pub(crate) fn try_recv_message(rx: &Receiver<Message>) -> (r: Option<Message>) {
    match rx.try_recv() {
        Ok(m) => Some(m),
        Err(_) => None,
    }
}

} // verus!
