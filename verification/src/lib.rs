//! Core of a multi-tenant virtual-world client: per-scene script execution
//! isolated behind an explicit state machine, a shared keyed state store with
//! last-writer-wins merge and dirty tracking, a closed capability namespace,
//! a priority-ordered and concurrency-bounded network dispatcher, and a
//! registry for forced termination of runaway scenes.
//!
//! Everything that decides or computes lives here, with contracts; the host
//! process supplies threads, channels, the script engine and the network
//! transport, and feeds their outcomes back in as plain values.

pub mod cancellation;
pub mod capability;
pub mod comms;
pub mod dispatcher;
pub mod keyed;
pub mod rpc;
pub mod scene;
pub mod state;
pub mod wire;
