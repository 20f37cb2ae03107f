//! The ticker: one heartbeat batch per tick period, whatever the input does.
//!
//! One round of the ticker is: send [`tick_batch`], then pause for
//! [`TICK_DURATION`](crate::timing::TICK_DURATION).

use vstd::prelude::*;
use crate::event::QueueEvent;

verus! {

/// What every heartbeat batch holds: the heartbeat marker and nothing else.
pub open spec fn heartbeat() -> Seq<QueueEvent> {
    seq![QueueEvent::Tick]
}

/// The batch that the ticker sends each round.
pub fn tick_batch() -> (batch: Vec<QueueEvent>)
    ensures
        batch@ == heartbeat(),
{
    let batch = vec![QueueEvent::Tick];
    assert(batch@ =~= heartbeat());
    batch
}

} // verus!
