//! Runs of the poller over many rounds, and what holds of every run.
//!
//! A run is the list of what the poller observed, round by round. From it
//! follow the state the poller ends in and the batches it handed over on the
//! way. The lemmas below speak of every run, and rest on nothing but the
//! definitions in [`crate::poller`].

use vstd::prelude::*;
use crate::event::QueueEvent;
use crate::event::all_input;
use crate::event::wrap_all;
use crate::poller::PollerState;
use crate::poller::after_round;
use crate::poller::handed_over;
use crate::poller::taken_in;
use crate::timing::MAX_BATCHING_DURATION;

verus! {

/// What one round observed: the event that arrived, if the poll did not time
/// out, and the time at which the poll returned.
pub struct Observation {
    pub arrived: Option<crossterm::event::Event>,
    pub at: u64,
}

/// One hand-over: the batch, and the time at which it was sent.
pub struct Delivery {
    pub at: u64,
    pub batch: Seq<QueueEvent>,
}

/// The state after the rounds of `run`, starting from `s`.
pub open spec fn state_after(s: PollerState, run: Seq<Observation>) -> PollerState
    decreases run.len(),
{
    if run.len() == 0 {
        s
    } else {
        after_round(state_after(s, run.drop_last()), run.last().arrived, run.last().at)
    }
}

/// The hand-overs made during the rounds of `run`, starting from `s`, in the
/// order in which they were sent.
pub open spec fn deliveries(s: PollerState, run: Seq<Observation>) -> Seq<Delivery>
    decreases run.len(),
{
    if run.len() == 0 {
        Seq::empty()
    } else {
        let before = deliveries(s, run.drop_last());
        let last = run.last();
        match handed_over(state_after(s, run.drop_last()), last.arrived, last.at) {
            Some(batch) => before.push(Delivery { at: last.at, batch }),
            None => before,
        }
    }
}

/// The input events that arrived during `run`, in the order of arrival.
pub open spec fn arrivals(run: Seq<Observation>) -> Seq<crossterm::event::Event>
    decreases run.len(),
{
    if run.len() == 0 {
        Seq::empty()
    } else {
        match run.last().arrived {
            Some(e) => arrivals(run.drop_last()).push(e),
            None => arrivals(run.drop_last()),
        }
    }
}

/// The batches of `sent` laid end to end.
pub open spec fn joined(sent: Seq<Delivery>) -> Seq<QueueEvent>
    decreases sent.len(),
{
    if sent.len() == 0 {
        Seq::empty()
    } else {
        joined(sent.drop_last()) + sent.last().batch
    }
}

/// When the hand-over before `sent[i]` took place: the time of `sent[i - 1]`,
/// or `start` for the first.
pub open spec fn previous_send(start: u64, sent: Seq<Delivery>, i: int) -> u64 {
    if i == 0 {
        start
    } else {
        sent[i - 1].at
    }
}

/// No batch that is handed over is empty.
pub proof fn lemma_deliveries_not_empty(s: PollerState, run: Seq<Observation>)
    ensures
        forall|i: int|
            0 <= i < deliveries(s, run).len() ==> (#[trigger] deliveries(s, run)[i]).batch.len()
                >= 1,
    decreases run.len(),
{
    if run.len() > 0 {
        let head = run.drop_last();
        lemma_deliveries_not_empty(s, head);
        let sent = deliveries(s, run);
        assert forall|i: int| 0 <= i < sent.len() implies (#[trigger] sent[i]).batch.len() >= 1 by {
            if i < deliveries(s, head).len() {
                assert(sent[i] == deliveries(s, head)[i]);
            }
        }
    }
}

/// A poller that holds input events only hands over input events only, and
/// still holds input events only after any run: a heartbeat never gets into
/// one of its batches.
pub proof fn lemma_deliveries_hold_input_only(s: PollerState, run: Seq<Observation>)
    requires
        all_input(s.pending),
    ensures
        all_input(state_after(s, run).pending),
        forall|i: int|
            0 <= i < deliveries(s, run).len() ==> all_input(
                (#[trigger] deliveries(s, run)[i]).batch,
            ),
    decreases run.len(),
{
    if run.len() > 0 {
        let head = run.drop_last();
        lemma_deliveries_hold_input_only(s, head);
        let sent = deliveries(s, run);
        assert(all_input(taken_in(state_after(s, head).pending, run.last().arrived)));
        assert forall|i: int| 0 <= i < sent.len() implies all_input((#[trigger] sent[i]).batch) by {
            if i < deliveries(s, head).len() {
                assert(sent[i] == deliveries(s, head)[i]);
            }
        }
    }
}

/// Nothing is lost, doubled or reordered: the batches handed over, laid end
/// to end and followed by what is still pending, are what was pending at the
/// start followed by every event that arrived, each wrapped, in the order of
/// arrival.
pub proof fn lemma_events_kept_in_order(s: PollerState, run: Seq<Observation>)
    ensures
        joined(deliveries(s, run)) + state_after(s, run).pending == s.pending + wrap_all(
            arrivals(run),
        ),
    decreases run.len(),
{
    if run.len() == 0 {
        assert(joined(deliveries(s, run)) + state_after(s, run).pending =~= s.pending + wrap_all(
            arrivals(run),
        ));
    } else {
        let head = run.drop_last();
        let last = run.last();
        lemma_events_kept_in_order(s, head);
        let mid = state_after(s, head);
        let batch = taken_in(mid.pending, last.arrived);
        assert(wrap_all(arrivals(run)) =~= taken_in(wrap_all(arrivals(head)), last.arrived));
        assert(s.pending + wrap_all(arrivals(run)) =~= taken_in(
            s.pending + wrap_all(arrivals(head)),
            last.arrived,
        ));
        assert(taken_in(joined(deliveries(s, head)) + mid.pending, last.arrived) =~= joined(
            deliveries(s, head),
        ) + batch);
        match handed_over(mid, last.arrived, last.at) {
            Some(b) => {
                let sent = deliveries(s, run);
                assert(sent.drop_last() =~= deliveries(s, head));
                assert(joined(sent) + state_after(s, run).pending =~= joined(
                    deliveries(s, head),
                ) + batch);
            },
            None => {},
        }
    }
}

/// No event is lost: from a start with nothing pending, the number of
/// elements handed over plus the number still pending is the number of
/// events that arrived. So once nothing is pending, exactly as many elements
/// were handed over as events arrived.
pub proof fn lemma_no_event_lost(s: PollerState, run: Seq<Observation>)
    requires
        s.pending.len() == 0,
    ensures
        joined(deliveries(s, run)).len() + state_after(s, run).pending.len() == arrivals(
            run,
        ).len(),
        state_after(s, run).pending.len() == 0 ==> joined(deliveries(s, run)) == wrap_all(
            arrivals(run),
        ),
{
    lemma_events_kept_in_order(s, run);
    let sent = joined(deliveries(s, run));
    let rest = state_after(s, run).pending;
    assert((sent + rest).len() == (s.pending + wrap_all(arrivals(run))).len());
    if rest.len() == 0 {
        assert(sent =~= sent + rest);
        assert(wrap_all(arrivals(run)) =~= s.pending + wrap_all(arrivals(run)));
    }
}

/// The poller's `last_send` is the time of its latest hand-over, or the one
/// it started with if it has handed over nothing yet.
pub proof fn lemma_last_send_is_latest_delivery(s: PollerState, run: Seq<Observation>)
    ensures
        state_after(s, run).last_send == previous_send(
            s.last_send,
            deliveries(s, run),
            deliveries(s, run).len() as int,
        ),
    decreases run.len(),
{
    if run.len() > 0 {
        lemma_last_send_is_latest_delivery(s, run.drop_last());
    }
}

/// Two hand-overs are more than the batching window apart, and so are the
/// first hand-over and the start: on a clock that may stand still but that
/// the poller never reads as running backwards, each hand-over comes later
/// than the one before it by more than `MAX_BATCHING_DURATION`.
pub proof fn lemma_deliveries_spaced_by_window(s: PollerState, run: Seq<Observation>)
    ensures
        forall|i: int|
            0 <= i < deliveries(s, run).len() ==> (#[trigger] deliveries(s, run)[i]).at
                - previous_send(s.last_send, deliveries(s, run), i) > MAX_BATCHING_DURATION,
    decreases run.len(),
{
    if run.len() > 0 {
        let head = run.drop_last();
        lemma_deliveries_spaced_by_window(s, head);
        lemma_last_send_is_latest_delivery(s, head);
        let sent = deliveries(s, run);
        let start = s.last_send;
        assert forall|i: int| 0 <= i < sent.len() implies (#[trigger] sent[i]).at - previous_send(
            start,
            sent,
            i,
        ) > MAX_BATCHING_DURATION by {
            if i < deliveries(s, head).len() {
                assert(sent[i] == deliveries(s, head)[i]);
                assert(previous_send(start, sent, i) == previous_send(
                    start,
                    deliveries(s, head),
                    i,
                ));
            }
        }
    }
}

/// Under a steady stream the batching window bounds the wait from above too.
/// If every round brings an event, and each round ends no later than `gap`
/// after the round before it, then a hand-over comes no later than
/// `MAX_BATCHING_DURATION + gap` after the hand-over before it. The same
/// holds of the first hand-over, counted from the start, if the first round
/// ended within that time. And at the end of such a run no more than the
/// batching window has passed since the last hand-over.
pub proof fn lemma_deliveries_prompt_under_load(s: PollerState, run: Seq<Observation>, gap: u64)
    requires
        forall|i: int| 0 <= i < run.len() ==> (#[trigger] run[i]).arrived.is_some(),
        forall|i: int| 0 <= i < run.len() - 1 ==> run[i + 1].at <= (#[trigger] run[i]).at + gap,
    ensures
        forall|i: int|
            0 <= i < deliveries(s, run).len() && (i > 0 || run[0].at <= s.last_send
                + MAX_BATCHING_DURATION + gap) ==> (#[trigger] deliveries(s, run)[i]).at
                - previous_send(s.last_send, deliveries(s, run), i) <= MAX_BATCHING_DURATION + gap,
        run.len() > 0 ==> run.last().at <= state_after(s, run).last_send + MAX_BATCHING_DURATION,
    decreases run.len(),
{
    if run.len() > 0 {
        let head = run.drop_last();
        assert forall|i: int| 0 <= i < head.len() implies (#[trigger] head[i]).arrived.is_some() by {
            assert(head[i] == run[i]);
        }
        assert forall|i: int| 0 <= i < head.len() - 1 implies head[i + 1].at <= (
        #[trigger] head[i]).at + gap by {
            assert(head[i] == run[i]);
            assert(head[i + 1] == run[i + 1]);
        }
        lemma_deliveries_prompt_under_load(s, head, gap);
        lemma_last_send_is_latest_delivery(s, head);
        let sent = deliveries(s, run);
        let start = s.last_send;
        assert(run.last().arrived.is_some());
        if head.len() > 0 {
            assert(head[0] == run[0]);
            assert(head.last() == run[run.len() - 2]);
            assert(run[run.len() - 2 + 1] == run.last());
        }
        assert forall|i: int|
            0 <= i < sent.len() && (i > 0 || run[0].at <= start + MAX_BATCHING_DURATION
                + gap) implies (#[trigger] sent[i]).at - previous_send(start, sent, i)
            <= MAX_BATCHING_DURATION + gap by {
            if i < deliveries(s, head).len() {
                assert(sent[i] == deliveries(s, head)[i]);
                assert(previous_send(start, sent, i) == previous_send(
                    start,
                    deliveries(s, head),
                    i,
                ));
            }
        }
    }
}

/// Hand-overs take time, however many events arrive: `n` hand-overs take
/// more than `n` batching windows, counted from the start to the last of
/// them.
pub proof fn lemma_deliveries_take_time(s: PollerState, run: Seq<Observation>)
    ensures
        deliveries(s, run).len() > 0 ==> deliveries(s, run).len() * MAX_BATCHING_DURATION
            < deliveries(s, run).last().at - s.last_send,
    decreases run.len(),
{
    if run.len() > 0 {
        let head = run.drop_last();
        lemma_deliveries_take_time(s, head);
        lemma_last_send_is_latest_delivery(s, head);
    }
}

/// Every hand-over is made at the end of some round of the run.
pub proof fn lemma_deliveries_within_run(s: PollerState, run: Seq<Observation>)
    ensures
        forall|k: int|
            0 <= k < deliveries(s, run).len() ==> exists|i: int|
                0 <= i < run.len() && run[i].at == (#[trigger] deliveries(s, run)[k]).at,
    decreases run.len(),
{
    if run.len() > 0 {
        let head = run.drop_last();
        lemma_deliveries_within_run(s, head);
        let sent = deliveries(s, run);
        assert forall|k: int| 0 <= k < sent.len() implies exists|i: int|
            0 <= i < run.len() && run[i].at == (#[trigger] sent[k]).at by {
            if k < deliveries(s, head).len() {
                assert(sent[k] == deliveries(s, head)[k]);
                let i = choose|i: int|
                    0 <= i < head.len() && head[i].at == deliveries(s, head)[k].at;
                assert(run[i] == head[i]);
            } else {
                assert(run[run.len() - 1].at == sent[k].at);
            }
        }
    }
}

/// A burst is coalesced: if every round of a run ends within `span` of the
/// start, the run makes at most `span / MAX_BATCHING_DURATION` hand-overs,
/// whatever the number of events in it.
pub proof fn lemma_burst_is_coalesced(s: PollerState, run: Seq<Observation>, span: u64)
    requires
        forall|i: int| 0 <= i < run.len() ==> (#[trigger] run[i]).at <= s.last_send + span,
    ensures
        deliveries(s, run).len() * MAX_BATCHING_DURATION <= span,
        deliveries(s, run).len() <= span / MAX_BATCHING_DURATION,
{
    let sent = deliveries(s, run);
    lemma_deliveries_take_time(s, run);
    lemma_deliveries_within_run(s, run);
    if sent.len() > 0 {
        let i = choose|i: int| 0 <= i < run.len() && run[i].at == sent.last().at;
        assert(run[i].at <= s.last_send + span);
    }
}

} // verus!
