use crossterm::event::{Event, KeyCode, KeyEvent, KeyModifiers};
use poll::event::QueueEvent;
use poll::poller::Poller;
use poll::timing::{MAX_BATCHING_DURATION, MAX_POLL_DURATION, MIN_POLL_DURATION};

const MS: u64 = 1_000_000;

fn key(c: char) -> Event {
    Event::Key(KeyEvent::new(KeyCode::Char(c), KeyModifiers::NONE))
}

fn wrapped(events: &[Event]) -> Vec<QueueEvent> {
    events.iter().cloned().map(QueueEvent::Event).collect()
}

#[test]
fn idle_poller_waits_long() {
    let p = Poller::new(0);
    assert_eq!(p.poll_timeout(), MAX_POLL_DURATION);
    assert_eq!(p.poll_timeout(), 2_000_000_000);
}

#[test]
fn pending_batch_shortens_the_wait() {
    let mut p = Poller::new(0);
    assert_eq!(p.step(Some(key('a')), MS), None);
    assert_eq!(p.poll_timeout(), MIN_POLL_DURATION);
    assert_eq!(p.poll_timeout(), 5_000_000);
}

#[test]
fn timeout_with_nothing_pending_sends_nothing() {
    let mut p = Poller::new(0);
    assert_eq!(p.step(None, 10 * MAX_POLL_DURATION), None);
    assert_eq!(p.poll_timeout(), MAX_POLL_DURATION);
}

#[test]
fn batch_is_held_until_the_window_has_passed() {
    let mut p = Poller::new(1_000);
    assert_eq!(p.step(Some(key('a')), 1_000 + MAX_BATCHING_DURATION), None);
    assert_eq!(p.poll_timeout(), MIN_POLL_DURATION);
    assert_eq!(
        p.step(None, 1_000 + MAX_BATCHING_DURATION + 1),
        Some(wrapped(&[key('a')]))
    );
    assert_eq!(p.poll_timeout(), MAX_POLL_DURATION);
}

#[test]
fn first_event_after_a_long_idle_is_sent_at_once() {
    let mut p = Poller::new(0);
    assert_eq!(p.step(None, 2_000 * MS), None);
    assert_eq!(
        p.step(Some(Event::FocusGained), 2_500 * MS),
        Some(vec![QueueEvent::Event(Event::FocusGained)])
    );
}

#[test]
fn window_restarts_at_each_send() {
    let mut p = Poller::new(0);
    assert_eq!(p.step(Some(key('a')), 30 * MS), Some(wrapped(&[key('a')])));
    // 25 ms after the send at 30 ms is 55 ms: nothing leaves before that.
    assert_eq!(p.step(Some(key('b')), 40 * MS), None);
    assert_eq!(p.step(None, 55 * MS), None);
    assert_eq!(p.step(None, 55 * MS + 1), Some(wrapped(&[key('b')])));
}

#[test]
fn events_keep_their_order_of_arrival() {
    let mut p = Poller::new(0);
    let e1 = key('x');
    let e2 = Event::Resize(80, 24);
    assert_eq!(p.step(Some(e1.clone()), 3 * MS), None);
    assert_eq!(p.step(Some(e2.clone()), 4 * MS), None);
    let batch = p.step(None, 26 * MS).expect("the window has passed");
    assert_eq!(batch, vec![QueueEvent::Event(e1), QueueEvent::Event(e2)]);
    assert_ne!(batch, wrapped(&[Event::Resize(80, 24), key('x')]));
}

#[test]
fn three_events_in_one_window_make_one_batch() {
    let mut p = Poller::new(0);
    let (e0, e1, e2) = (key('0'), key('1'), key('2'));
    let mut delivered: Vec<(u64, Vec<QueueEvent>)> = Vec::new();
    let mut now = 0;
    for (at, e) in [(0, e0.clone()), (MS, e1.clone()), (2 * MS, e2.clone())] {
        now = at;
        if let Some(batch) = p.step(Some(e), now) {
            delivered.push((now, batch));
        }
    }
    // No more input: each poll runs into its timeout.
    while now < 5_000 * MS {
        now += p.poll_timeout();
        if let Some(batch) = p.step(None, now) {
            delivered.push((now, batch));
        }
    }
    assert_eq!(delivered.len(), 1);
    assert_eq!(delivered[0].1, wrapped(&[e0, e1, e2]));
    // 2 ms, then polls of 5 ms each: 7, 12, 17, 22, 27 ms.
    assert_eq!(delivered[0].0, 27 * MS);
    assert_eq!(p.poll_timeout(), MAX_POLL_DURATION);
}

#[test]
fn delivered_batches_are_never_empty() {
    let mut p = Poller::new(0);
    let mut batches = 0;
    for round in 0..400u64 {
        let arrived = if round % 7 == 0 { Some(key('k')) } else { None };
        if let Some(batch) = p.step(arrived, round * 3 * MS) {
            assert!(batch.len() >= 1);
            batches += 1;
        }
    }
    assert!(batches > 0);
}

#[test]
fn poller_batches_hold_no_tick() {
    let mut p = Poller::new(0);
    for round in 0..200u64 {
        if let Some(batch) = p.step(Some(Event::FocusLost), round * 4 * MS) {
            assert!(batch.iter().all(|q| matches!(q, QueueEvent::Event(_))));
        }
    }
}

#[test]
fn burst_of_a_thousand_is_coalesced() {
    let mut p = Poller::new(0);
    let n = 1000u64;
    let mut delivered: Vec<Vec<QueueEvent>> = Vec::new();
    // 1000 events, 5 microseconds apart: all within 5 ms.
    for i in 0..n {
        if let Some(batch) = p.step(Some(Event::Resize(i as u16, 1)), i * 5_000) {
            delivered.push(batch);
        }
    }
    assert_eq!(delivered.len(), 0);
    let mut now = n * 5_000;
    while now < 100 * MS {
        now += p.poll_timeout();
        if let Some(batch) = p.step(None, now) {
            delivered.push(batch);
        }
    }
    assert!((delivered.len() as u64) < n);
    assert_eq!(delivered.len(), 1);
    assert_eq!(delivered[0].len(), 1000);
    for (i, q) in delivered[0].iter().enumerate() {
        assert_eq!(*q, QueueEvent::Event(Event::Resize(i as u16, 1)));
    }
}

#[test]
fn no_event_is_lost() {
    for m in [0u64, 1, 2, 17, 250] {
        let mut p = Poller::new(0);
        let mut seen: Vec<QueueEvent> = Vec::new();
        let mut now = 0;
        for i in 0..m {
            now = i * 2 * MS;
            if let Some(batch) = p.step(Some(Event::Resize(i as u16, 0)), now) {
                seen.extend(batch);
            }
        }
        // Let the last pending batch leave.
        now += MAX_BATCHING_DURATION + 1;
        if let Some(batch) = p.step(None, now) {
            seen.extend(batch);
        }
        assert_eq!(seen.len() as u64, m);
        for (i, q) in seen.iter().enumerate() {
            assert_eq!(*q, QueueEvent::Event(Event::Resize(i as u16, 0)));
        }
        assert_eq!(p.poll_timeout(), MAX_POLL_DURATION);
    }
}

#[test]
fn steady_stream_is_sent_once_per_window() {
    let mut p = Poller::new(0);
    let mut sends: Vec<u64> = vec![0];
    // One event every millisecond, for one second.
    for i in 1..=1000u64 {
        if p.step(Some(key('s')), i * MS).is_some() {
            sends.push(i * MS);
        }
    }
    assert_eq!(sends[1], 26 * MS);
    assert_eq!(sends.len(), 1 + 1000 / 26);
    for pair in sends.windows(2) {
        let gap = pair[1] - pair[0];
        assert!(gap > MAX_BATCHING_DURATION);
        assert!(gap <= MAX_BATCHING_DURATION + MIN_POLL_DURATION);
        assert_eq!(gap, 26 * MS);
    }
}

#[test]
fn clock_read_as_running_backwards_counts_as_no_time() {
    let mut p = Poller::new(100 * MS);
    assert_eq!(p.step(Some(key('a')), 10 * MS), None);
    assert_eq!(p.step(None, 0), None);
    assert_eq!(p.step(None, 125 * MS), None);
    assert_eq!(p.step(None, 125 * MS + 1), Some(wrapped(&[key('a')])));
}

#[test]
fn times_near_the_end_of_the_range_do_not_overflow() {
    let mut p = Poller::new(u64::MAX - 10);
    assert_eq!(p.step(Some(key('a')), u64::MAX), None);
    let mut q = Poller::new(0);
    assert_eq!(q.step(Some(key('a')), u64::MAX), Some(wrapped(&[key('a')])));
    assert_eq!(q.step(Some(key('b')), 0), None);
}
