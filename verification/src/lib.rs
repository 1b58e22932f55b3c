//! Engine of an interactive directory-size explorer.
//!
//! The library is the scan engine: a controller state machine that starts a
//! scan, accepts batched size deltas over an inbox channel, keeps a running
//! per-child aggregate, ranks the largest children, and supports cancellation.
//! Fair interleaving of the per-child traversals and rate-limited forwarding
//! of deltas are decided here as well; the surrounding host performs the
//! filesystem reads and drives the user interface.

pub mod aggregate;
pub mod rank;
pub mod state;
pub mod mux;
pub mod forward;
pub mod controller;
pub mod laws;
