//! Debounced batching of terminal input events, with a periodic heartbeat.
//!
//! The decisions of the two producers are kept here as small verified state
//! machines over plain values: which poll timeout to use, when a pending
//! batch is handed over, and what a heartbeat batch holds. Time is a count
//! of nanoseconds on a monotonic clock chosen by the caller.

pub mod event;
pub mod timing;
pub mod poller;
pub mod ticker;
pub mod trace;
