//! The input poller: it gathers input events into a pending batch and hands
//! the batch over once the batching window has passed.
//!
//! One round of the poller is: ask [`Poller::poll_timeout`] how long to wait
//! for input, wait that long at most, then report to [`Poller::step`] what
//! arrived and when. `step` answers with the batch to send, if one is due.

use vstd::prelude::*;
use crate::event::QueueEvent;
use crate::event::all_input;
use crate::timing::MAX_BATCHING_DURATION;
use crate::timing::MAX_POLL_DURATION;
use crate::timing::MIN_POLL_DURATION;
use crate::timing::elapsed;
use crate::timing::elapsed_between;

verus! {

/// What a poller holds between two rounds.
pub struct PollerState {
    /// The events gathered since the last hand-over, oldest first.
    pub pending: Seq<QueueEvent>,
    /// When the last hand-over took place (or when the poller was made).
    pub last_send: u64,
}

/// The state of a poller made at `now`: nothing pending.
pub open spec fn fresh(now: u64) -> PollerState {
    PollerState { pending: Seq::empty(), last_send: now }
}

/// The timeout of the next poll: short while a batch is pending, so that
/// the batch is not held back for long; long while idle.
pub open spec fn timeout_for(pending: Seq<QueueEvent>) -> u64 {
    if pending.len() > 0 {
        MIN_POLL_DURATION
    } else {
        MAX_POLL_DURATION
    }
}

/// The pending batch once the outcome of a poll is taken in: an event that
/// arrived is wrapped and put last; a timeout changes nothing.
pub open spec fn taken_in(
    pending: Seq<QueueEvent>,
    arrived: Option<crossterm::event::Event>,
) -> Seq<QueueEvent> {
    match arrived {
        Some(e) => pending.push(QueueEvent::Event(e)),
        None => pending,
    }
}

/// Whether a hand-over is due at `now`: something is pending, and more than
/// the batching window has passed since the last hand-over.
pub open spec fn flush_due(pending: Seq<QueueEvent>, last_send: u64, now: u64) -> bool {
    pending.len() > 0 && elapsed(last_send, now) > MAX_BATCHING_DURATION
}

/// The batch that one round hands over, if any: everything pending,
/// including what just arrived.
pub open spec fn handed_over(
    s: PollerState,
    arrived: Option<crossterm::event::Event>,
    now: u64,
) -> Option<Seq<QueueEvent>> {
    let batch = taken_in(s.pending, arrived);
    if flush_due(batch, s.last_send, now) {
        Some(batch)
    } else {
        None
    }
}

/// The state after one round. A hand-over leaves nothing pending and moves
/// `last_send` to `now`; otherwise the batch only grows by what arrived.
pub open spec fn after_round(
    s: PollerState,
    arrived: Option<crossterm::event::Event>,
    now: u64,
) -> PollerState {
    let batch = taken_in(s.pending, arrived);
    if flush_due(batch, s.last_send, now) {
        fresh(now)
    } else {
        PollerState { pending: batch, last_send: s.last_send }
    }
}

/// The poller's state machine.
pub struct Poller {
    batch: Vec<QueueEvent>,
    last_send: u64,
}

impl View for Poller {
    type V = PollerState;

    closed spec fn view(&self) -> PollerState {
        PollerState { pending: self.batch@, last_send: self.last_send }
    }
}

impl Poller {
    /// A pending batch holds input events only, never a heartbeat.
    #[verifier::type_invariant]
    pub closed spec fn holds_input_only(self) -> bool {
        all_input(self.batch@)
    }

    /// A poller with nothing pending, whose batching window starts at `now`.
    pub fn new(now: u64) -> (p: Poller)
        ensures
            p@ == fresh(now),
    {
        Poller { batch: Vec::new(), last_send: now }
    }

    /// How long the next poll may block.
    pub fn poll_timeout(&self) -> (timeout: u64)
        ensures
            timeout == timeout_for(self@.pending),
    {
        if self.batch.len() > 0 {
            MIN_POLL_DURATION
        } else {
            MAX_POLL_DURATION
        }
    }

    /// Takes in the outcome of one poll, observed at `now`, and returns the
    /// batch to send if a hand-over is due.
    ///
    /// A batch that is returned is never empty and holds input events only:
    /// all that was pending, then the event that just arrived, if any.
    pub fn step(
        &mut self,
        arrived: Option<crossterm::event::Event>,
        now: u64,
    ) -> (out: Option<Vec<QueueEvent>>)
        ensures
            final(self)@ == after_round(old(self)@, arrived, now),
            all_input(final(self)@.pending),
            match out {
                Some(batch) => handed_over(old(self)@, arrived, now) == Some(batch@)
                    && batch@.len() >= 1 && all_input(batch@),
                None => handed_over(old(self)@, arrived, now).is_none(),
            },
    {
        proof {
            use_type_invariant(&*self);
        }
        let mut batch = Vec::new();
        std::mem::swap(&mut self.batch, &mut batch);
        if let Some(e) = arrived {
            batch.push(QueueEvent::Event(e));
        }
        if batch.len() > 0 && elapsed_between(self.last_send, now) > MAX_BATCHING_DURATION {
            self.last_send = now;
            Some(batch)
        } else {
            self.batch = batch;
            None
        }
    }
}

} // verus!
