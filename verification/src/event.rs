//! The events that travel through the queue.

use vstd::prelude::*;

verus! {

/// `crossterm::event::Event`, the raw input event of the terminal.
///
/// The value is carried through untouched: nothing here looks inside it.
#[verifier::external_type_specification]
#[verifier::external_body]
pub struct ExTerminalEvent(crossterm::event::Event);

/// `Clone::clone` of `crossterm::event::Event`, which the crate derives: the
/// copy equals the value it was made from.
pub assume_specification[ <crossterm::event::Event as Clone>::clone ](
    e: &crossterm::event::Event,
) -> (res: crossterm::event::Event)
    ensures
        res == *e,
;

/// One element of a batch: a heartbeat, or one raw input event.
#[derive(Debug, PartialEq)]
pub enum QueueEvent {
    /// The heartbeat marker; it carries nothing.
    Tick,
    /// One raw input event, as the terminal reported it.
    Event(crossterm::event::Event),
}

impl Clone for QueueEvent {
    fn clone(&self) -> (res: Self)
        ensures
            res == *self,
    {
        match self {
            QueueEvent::Tick => QueueEvent::Tick,
            QueueEvent::Event(e) => QueueEvent::Event(e.clone()),
        }
    }
}

/// The batch that holds each of `events`, wrapped, in the same order.
pub open spec fn wrap_all(events: Seq<crossterm::event::Event>) -> Seq<QueueEvent> {
    events.map_values(|e: crossterm::event::Event| QueueEvent::Event(e))
}

/// Every element of `batch` wraps an input event.
pub open spec fn all_input(batch: Seq<QueueEvent>) -> bool {
    forall|i: int| 0 <= i < batch.len() ==> (#[trigger] batch[i]) is Event
}

} // verus!
