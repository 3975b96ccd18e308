use crossbeam_utils::CachePadded;
use disruptor::barrier::Barrier;
use disruptor::builder::multi::MPBuilder;
use disruptor::consumer::event_poller::{decide_poll, decide_poll_wait, EventPoller, Polling};
use disruptor::consumer::{MultiConsumerBarrier, SingleConsumerBarrier};
use disruptor::cursor::Cursor;
use disruptor::ringbuffer::RingBuffer;
use disruptor::wait_strategies::{BusySpin, WaitOutcome, WaitStrategy, Waiter};
use disruptor::Sequence;
use std::sync::atomic::{AtomicI64, Ordering};
use std::sync::Arc;
use std::time::{Duration, Instant};

fn pause(duration: Duration) {
    let start = Instant::now();
    while start.elapsed() < duration {
        std::hint::spin_loop();
    }
}

#[test]
fn poller_observes_manual_shutdown_without_producer_drop() {
    #[derive(Debug)]
    struct Event;

    let ring_buffer = Arc::new(RingBuffer::new(2, || Event));
    let cursor = Arc::new(Cursor::new(-1));
    let shutdown = Arc::new(CachePadded::new(AtomicI64::new(-1)));
    let barrier = Arc::new(SingleConsumerBarrier::new(Arc::clone(&cursor)));

    let mut poller = EventPoller::new(
        ring_buffer,
        barrier,
        Arc::clone(&shutdown),
        Arc::clone(&cursor),
    );

    // Signal shutdown as if producer had advanced to sequence 0.
    shutdown.store(0, Ordering::Relaxed);
    assert_eq!(poller.poll().err(), Some(Polling::Shutdown));
}

#[test]
fn poller_exits_on_shutdown_race() {
    #[derive(Debug)]
    struct Event;

    let ring_buffer = Arc::new(RingBuffer::new(2, || Event));
    let cursor = Arc::new(Cursor::new(-1));
    let shutdown = Arc::new(CachePadded::new(AtomicI64::new(-1)));
    let barrier = Arc::new(SingleConsumerBarrier::new(Arc::clone(&cursor)));

    let mut poller = EventPoller::new(
        ring_buffer,
        barrier,
        Arc::clone(&shutdown),
        Arc::clone(&cursor),
    );

    let shutdown_ref = shutdown.clone();
    crossbeam_utils::thread::scope(|scope| {
        let handle = scope.spawn(move |_| {
            pause(Duration::from_millis(20));
            shutdown_ref.store(0, Ordering::Relaxed);
        });

        // Spin poll until shutdown is observed.
        let mut saw_shutdown = false;
        for _ in 0..10 {
            if matches!(poller.poll(), Err(Polling::Shutdown)) {
                saw_shutdown = true;
                break;
            }
            pause(Duration::from_millis(5));
        }
        handle.join().unwrap();
        assert!(saw_shutdown, "poller should see shutdown promptly");
    })
    .unwrap();
}

#[test]
fn poll_wait_can_drive_poller_with_library_waiter() {
    #[derive(Debug)]
    struct Event(AtomicI64);

    let factory = || Event(AtomicI64::new(0));
    let published = Arc::new(Cursor::new(-1));
    let barrier = Arc::new(SingleConsumerBarrier::new(Arc::clone(&published)));
    let builder = MPBuilder::new(8, factory, BusySpin, Arc::clone(&barrier), barrier);
    let (mut poller, builder) = builder.event_poller();
    let parts = builder.build();

    // Publish one event and shut down.
    parts.ring_buffer.get(0).0.store(42, Ordering::Relaxed);
    published.store(0);
    parts.shutdown_at_sequence.store(1, Ordering::Relaxed);

    let mut waiter = BusySpin.new_waiter();

    let mut guard = poller
        .poll_wait(&mut waiter)
        .ok()
        .expect("should see published event");
    let (_seq, got) = guard.next().unwrap();
    let got = got.0.load(Ordering::Relaxed);
    assert_eq!(got, 42);
    drop(guard);

    assert_eq!(poller.poll_wait(&mut waiter).err(), Some(Polling::Shutdown));
}

struct Setup {
    published: Arc<Cursor>,
    cursor: Arc<Cursor>,
    shutdown: Arc<CachePadded<AtomicI64>>,
    poller: EventPoller<i64, SingleConsumerBarrier>,
}

fn setup(published: Sequence) -> Setup {
    let mut value = 0;
    let ring_buffer = Arc::new(RingBuffer::new(8, || {
        value += 100;
        value
    }));
    let published = Arc::new(Cursor::new(published));
    let cursor = Arc::new(Cursor::new(-1));
    let shutdown = Arc::new(CachePadded::new(AtomicI64::new(-1)));
    let barrier = Arc::new(SingleConsumerBarrier::new(Arc::clone(&published)));
    let poller = EventPoller::new(
        ring_buffer,
        barrier,
        Arc::clone(&shutdown),
        Arc::clone(&cursor),
    );
    Setup {
        published,
        cursor,
        shutdown,
        poller,
    }
}

#[test]
fn a_poll_yields_all_events_in_order() {
    let mut s = setup(4);
    let mut guard = s.poller.poll().ok().unwrap();
    assert_eq!(5, guard.len());
    assert!(!guard.is_empty());
    let mut read = vec![];
    while let Some((sequence, event)) = guard.next() {
        read.push((sequence, *event));
    }
    assert_eq!(
        vec![(0, 100), (1, 200), (2, 300), (3, 400), (4, 500)],
        read
    );
    assert!(guard.is_empty());
    assert_eq!(0, guard.len());
    // The cursor moves when the guard goes, and not before.
    assert_eq!(-1, s.cursor.relaxed_value());
    drop(guard);
    assert_eq!(4, s.cursor.relaxed_value());
    assert_eq!(Some(Polling::NoEvents), s.poller.poll().err());
}

#[test]
fn dropping_a_guard_skips_what_was_not_read() {
    let mut s = setup(4);
    let mut guard = s.poller.poll().ok().unwrap();
    assert_eq!(Some((0, &100)), guard.next());
    drop(guard);
    assert_eq!(4, s.cursor.relaxed_value());
    s.published.store(5);
    let mut guard = s.poller.poll().ok().unwrap();
    assert_eq!(Some((5, &600)), guard.next());
    assert_eq!(None, guard.next());
}

#[test]
fn limited_polls_follow_each_other() {
    let mut s = setup(6);
    let mut read = vec![];
    for (limit, expected) in [(3, 3), (2, 2), (10, 2)] {
        let mut guard = s.poller.poll_take(limit).ok().unwrap();
        assert_eq!(expected, guard.len());
        while let Some((sequence, _)) = guard.next() {
            read.push(sequence);
        }
    }
    assert_eq!(vec![0, 1, 2, 3, 4, 5, 6], read);
    assert_eq!(Some(Polling::NoEvents), s.poller.poll_take(1).err());
}

#[test]
fn a_limit_of_zero_gives_an_empty_guard() {
    let mut s = setup(6);
    let mut guard = s.poller.poll_take(0).ok().unwrap();
    assert_eq!(0, guard.len());
    assert_eq!(None, guard.next());
    drop(guard);
    assert_eq!(-1, s.cursor.relaxed_value());
    assert_eq!(7, s.poller.poll().ok().unwrap().len());
}

#[test]
fn a_limit_of_zero_is_granted_without_events() {
    let mut s = setup(-1);
    let guard = s.poller.poll_take(0).ok().unwrap();
    assert_eq!(0, guard.len());
    assert!(guard.is_empty());
    drop(guard);
    assert_eq!(-1, s.cursor.relaxed_value());
    assert_eq!(Some(Polling::NoEvents), s.poller.poll_take(1).err());
    s.published.store(0);
    assert_eq!(1, s.poller.poll().ok().unwrap().len());

    assert_eq!(Ok((0, -1)), decide_poll(-1, -1, -1, 0));
    assert_eq!(Ok((10, 9)), decide_poll(9, -1, 9, 0));
    assert_eq!(Err(Polling::Shutdown), decide_poll(9, 10, 9, 0));
}

#[test]
fn polls_yield_everything_whatever_comes_between() {
    let mut s = setup(-1);
    let mut read = vec![];
    for (published, limit) in [(1, 1), (1, 0), (1, 5), (1, 5), (6, 2), (6, 100), (7, 1)] {
        s.published.store(published);
        if let Ok(mut guard) = s.poller.poll_take(limit) {
            while let Some((sequence, _)) = guard.next() {
                read.push(sequence);
            }
        }
    }
    assert_eq!(vec![0, 1, 2, 3, 4, 5, 6, 7], read);
}

#[test]
fn a_poll_reports_the_shutdown_after_the_last_event() {
    let mut s = setup(1);
    s.shutdown.store(2, Ordering::Relaxed);
    assert_eq!(2, s.poller.poll().ok().unwrap().len());
    assert_eq!(Some(Polling::Shutdown), s.poller.poll().err());
    assert_eq!(
        Some(Polling::Shutdown),
        s.poller.poll_take(0).err()
    );
}

struct NeverReady;

impl Waiter for NeverReady {
    fn wait_for<B: Barrier>(
        &mut self,
        _requested: Sequence,
        _barrier: &B,
        _shutdown: &CachePadded<AtomicI64>,
    ) -> WaitOutcome {
        WaitOutcome::Timeout
    }
}

#[test]
fn a_timeout_of_the_waiter_means_no_events() {
    let mut s = setup(3);
    assert_eq!(
        Some(Polling::NoEvents),
        s.poller.poll_wait(&mut NeverReady).err()
    );
    assert_eq!(-1, s.cursor.relaxed_value());
    let mut waiter = BusySpin.new_waiter();
    assert_eq!(4, s.poller.poll_wait(&mut waiter).ok().unwrap().len());
}

#[test]
fn polls_are_decided_by_what_was_read() {
    assert_eq!(Ok((0, 9)), decide_poll(-1, -1, 9, u64::MAX));
    assert_eq!(Ok((0, 3)), decide_poll(-1, -1, 9, 4));
    assert_eq!(Ok((0, -1)), decide_poll(-1, -1, 9, 0));
    assert_eq!(Err(Polling::NoEvents), decide_poll(9, -1, 9, 4));
    assert_eq!(Err(Polling::Shutdown), decide_poll(9, 10, 12, 4));
    assert_eq!(
        Ok((i64::MAX, i64::MAX)),
        decide_poll(i64::MAX - 1, -1, i64::MAX, 4)
    );

    assert_eq!(
        Ok((3, 7)),
        decide_poll_wait(3, WaitOutcome::Available { upper: 7 })
    );
    assert_eq!(
        Err(Polling::Shutdown),
        decide_poll_wait(3, WaitOutcome::Shutdown)
    );
    assert_eq!(
        Err(Polling::NoEvents),
        decide_poll_wait(3, WaitOutcome::Timeout)
    );
}

#[test]
fn polling_errors_have_messages() {
    assert_eq!("No available events.", Polling::NoEvents.message());
    assert_eq!("Disruptor is shut down.", Polling::Shutdown.message());
}

#[test]
fn polls_go_on_where_the_last_one_stopped_behind_a_barrier_without_a_bound() {
    let cursor = Arc::new(Cursor::new(-1));
    let mut poller = EventPoller::new(
        Arc::new(RingBuffer::new(4, || 'x')),
        Arc::new(MultiConsumerBarrier::new(vec![])),
        Arc::new(CachePadded::new(AtomicI64::new(-1))),
        Arc::clone(&cursor),
    );
    let mut read = vec![];
    for limit in [3, 0, 2, 1] {
        let mut guard = poller.poll_take(limit).ok().unwrap();
        while let Some((sequence, _)) = guard.next() {
            read.push(sequence);
        }
    }
    assert_eq!(vec![0, 1, 2, 3, 4, 5], read);
    assert_eq!(5, cursor.relaxed_value());

    cursor.store(i64::MAX - 2);
    assert_eq!(2, poller.poll().ok().unwrap().len());
    assert_eq!(i64::MAX, cursor.relaxed_value());
}
