//! The verified core of `pui`, a terminal client for the pueue task queue.
//!
//! Everything the client decides is decided here, on plain values: the mode
//! state machine and its key handling ([`controller`]), the identity-tracking
//! selection that survives re-sorting, filtering and deletions, the filtered
//! and ordered view of the job set ([`view`]), the log viewport whose
//! autoscroll is clamped by the renderer's own line wrapping ([`logview`]),
//! and the reconnect policy for the daemon connection. The terminal, the
//! daemon connection and the painting live outside, behind the contracts
//! these modules state.

pub mod controller;
pub mod display;
pub mod keys;
pub mod logview;
pub mod tasks;
pub mod text;
pub mod view;
