//! The tunable durations, and how elapsed time is measured.
//!
//! Every duration and every point in time is a `u64` count of nanoseconds.
//! Points in time are readings of one monotonic clock, counted from an
//! origin that the caller picks once.

use vstd::prelude::*;

verus! {

/// How long a poll may block while nothing is pending: two seconds.
pub const MAX_POLL_DURATION: u64 = 2_000_000_000;

/// How long a poll may block while a batch is pending: five milliseconds.
pub const MIN_POLL_DURATION: u64 = 5_000_000;

/// The batching window: a pending batch is handed over once more than
/// twenty-five milliseconds have passed since the last hand-over.
pub const MAX_BATCHING_DURATION: u64 = 25_000_000;

/// The pause between two heartbeats: two seconds.
pub const TICK_DURATION: u64 = 2_000_000_000;

/// The time that has passed from `since` to `now`; zero if `now` is not
/// later than `since`.
pub open spec fn elapsed(since: u64, now: u64) -> u64 {
    if now >= since {
        (now - since) as u64
    } else {
        0
    }
}

/// Measures the time from `since` to `now`, never going below zero.
pub fn elapsed_between(since: u64, now: u64) -> (d: u64)
    ensures
        d == elapsed(since, now),
{
    if now >= since {
        now - since
    } else {
        0
    }
}

} // verus!
