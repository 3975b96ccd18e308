use crossbeam_utils::CachePadded;
use disruptor::barrier::Barrier;
use disruptor::consumer::desk::Desk;
use disruptor::consumer::{
    process_batch, process_outcome, run_processor_loop, ProcessorExit, SingleConsumerBarrier,
};
use disruptor::cursor::Cursor;
use disruptor::event_handler::{HandlerSink, StatefulSink};
use disruptor::ringbuffer::RingBuffer;
use disruptor::wait_strategies::{
    BusySpin, NoopWakeupNotifier, WaitOutcome, WaitStrategy, Waiter, WakeupNotifier,
};
use disruptor::Sequence;
use std::sync::atomic::AtomicI64;
use std::sync::{Arc, Mutex};

/// What happened, in order.
type Log = Arc<Mutex<Vec<Note>>>;

#[derive(Clone, Debug, PartialEq)]
enum Note {
    Asked(i64),
    Handled(i64, i32, bool),
    Woken(i64),
}

fn logging_sink(log: &Log) -> HandlerSink<impl FnMut(&i32, Sequence, bool) + Send> {
    let log = log.clone();
    HandlerSink {
        event_handler: move |event: &i32, sequence: Sequence, end_of_batch: bool| {
            let note = Note::Handled(sequence, *event, end_of_batch);
            log.lock().unwrap().push(note);
        },
    }
}

fn numbered(size: usize) -> RingBuffer<i32> {
    let mut next = 0;
    RingBuffer::new(size, || {
        next += 10;
        next
    })
}

/// Notes where the cursor stands at each wake.
struct NotedWakes {
    log: Log,
    cursor: Arc<Cursor>,
}

impl WakeupNotifier for NotedWakes {
    fn wake(&self) {
        let note = Note::Woken(self.cursor.relaxed_value());
        self.log.lock().unwrap().push(note);
    }
}

/// Gives the outcomes one after the other.
struct Script {
    outcomes: Vec<WaitOutcome>,
    log: Log,
}

impl Waiter for Script {
    fn wait_for<B: Barrier>(
        &mut self,
        requested: Sequence,
        _barrier: &B,
        _shutdown: &CachePadded<AtomicI64>,
    ) -> WaitOutcome {
        self.log.lock().unwrap().push(Note::Asked(requested));
        self.outcomes.remove(0)
    }
}

fn noted(log: &Log, cursor: &Arc<Cursor>) -> NotedWakes {
    NotedWakes {
        log: log.clone(),
        cursor: cursor.clone(),
    }
}

#[test]
fn a_batch_is_passed_in_order_and_its_last_event_ends_it() {
    let log = Log::default();
    let cursor = Arc::new(Cursor::new(-1));
    let mut desk = Desk::new((), logging_sink(&log), cursor.clone(), ());
    process_batch(&mut desk, &numbered(4), 2, 5);
    assert_eq!(
        vec![
            Note::Handled(2, 30, false),
            Note::Handled(3, 40, false),
            Note::Handled(4, 10, false),
            Note::Handled(5, 20, true)
        ],
        *log.lock().unwrap()
    );
    process_batch(&mut desk, &numbered(4), 6, 6);
    assert_eq!(
        Some(&Note::Handled(6, 30, true)),
        log.lock().unwrap().last()
    );
    process_batch(&mut desk, &numbered(4), i64::MAX, i64::MAX);
    assert_eq!(
        Some(&Note::Handled(i64::MAX, 40, true)),
        log.lock().unwrap().last()
    );
    assert_eq!(-1, cursor.relaxed_value());
}

#[test]
fn a_processor_does_what_its_waiter_tells_in_order() {
    let log = Log::default();
    let ring_buffer = numbered(4);
    let barrier = SingleConsumerBarrier::new(Arc::new(Cursor::new(-1)));
    let shutdown = CachePadded::new(AtomicI64::new(-1));
    let cursor = Arc::new(Cursor::new(-1));
    let waiter = Script {
        outcomes: vec![
            WaitOutcome::Available { upper: 2 },
            WaitOutcome::Timeout,
            WaitOutcome::Available { upper: 5 },
            WaitOutcome::Shutdown,
            WaitOutcome::Available { upper: 6 },
            WaitOutcome::Shutdown,
        ],
        log: log.clone(),
    };
    let wakes = noted(&log, &cursor);
    let mut desk = Desk::new(waiter, logging_sink(&log), cursor.clone(), wakes);
    let mut sequence = 0;
    let exit = run_processor_loop(&mut desk, &barrier, &shutdown, &ring_buffer, &mut sequence);
    assert_eq!(ProcessorExit::Shutdown, exit);
    assert_eq!(6, sequence);
    assert_eq!(5, cursor.relaxed_value());
    assert_eq!(
        vec![
            Note::Asked(0),
            Note::Handled(0, 10, false),
            Note::Handled(1, 20, false),
            Note::Handled(2, 30, true),
            Note::Woken(2),
            Note::Asked(3),
            Note::Asked(3),
            Note::Handled(3, 40, false),
            Note::Handled(4, 10, false),
            Note::Handled(5, 20, true),
            Note::Woken(5),
            Note::Asked(6),
        ],
        *log.lock().unwrap()
    );

    // Run again, it goes on where it stopped.
    log.lock().unwrap().clear();
    run_processor_loop(&mut desk, &barrier, &shutdown, &ring_buffer, &mut sequence);
    assert_eq!(7, sequence);
    assert_eq!(6, cursor.relaxed_value());
    assert_eq!(
        vec![
            Note::Asked(6),
            Note::Handled(6, 30, true),
            Note::Woken(6),
            Note::Asked(7)
        ],
        *log.lock().unwrap()
    );
}

#[test]
fn a_processor_drains_what_was_published_before_the_shutdown() {
    let log = Log::default();
    let published = Arc::new(Cursor::new(6));
    let shutdown = CachePadded::new(AtomicI64::new(7));
    let cursor = Arc::new(Cursor::new(-1));
    let mut desk = Desk::new(
        BusySpin.new_waiter(),
        logging_sink(&log),
        cursor.clone(),
        BusySpin.notifier(),
    );
    let mut sequence = 0;
    let exit = run_processor_loop(
        &mut desk,
        &SingleConsumerBarrier::new(published),
        &shutdown,
        &numbered(8),
        &mut sequence,
    );
    assert_eq!(ProcessorExit::Shutdown, exit);
    let expected: Vec<Note> = (0..7)
        .map(|i| Note::Handled(i, 10 * (i as i32 + 1), i == 6))
        .collect();
    assert_eq!(expected, *log.lock().unwrap());
    assert_eq!(6, cursor.relaxed_value());
}

#[test]
fn every_outcome_of_a_wait_is_dealt_with() {
    let log = Log::default();
    let ring_buffer = numbered(2);
    let cursor = Arc::new(Cursor::new(-1));
    let wakes = noted(&log, &cursor);
    let mut desk = Desk::new((), logging_sink(&log), cursor.clone(), wakes);
    let mut sequence = 5;
    let mut deal = |outcome, sequence: &mut Sequence| {
        process_outcome(outcome, &mut desk, &ring_buffer, sequence)
    };

    assert_eq!(None, deal(WaitOutcome::Timeout, &mut sequence));
    assert_eq!(5, sequence);
    assert_eq!(
        Some(ProcessorExit::Shutdown),
        deal(WaitOutcome::Shutdown, &mut sequence)
    );
    assert_eq!(-1, cursor.relaxed_value());
    assert!(log.lock().unwrap().is_empty());

    // A waiter that gives less than was asked for brings no event.
    assert_eq!(
        None,
        deal(WaitOutcome::Available { upper: 3 }, &mut sequence)
    );
    assert_eq!(5, sequence);
    assert_eq!(vec![Note::Woken(4)], *log.lock().unwrap());

    assert_eq!(
        None,
        deal(WaitOutcome::Available { upper: 6 }, &mut sequence)
    );
    assert_eq!(7, sequence);
    assert_eq!(6, cursor.relaxed_value());

    sequence = i64::MAX;
    assert_eq!(
        Some(ProcessorExit::SequencesExhausted),
        deal(WaitOutcome::Available { upper: i64::MAX }, &mut sequence)
    );
    assert_eq!(i64::MAX, sequence);
    assert_eq!(6, log.lock().unwrap().len());
}

#[test]
fn a_stateful_sink_keeps_its_state() {
    let sink = StatefulSink {
        event_handler: |sum: &mut i32, event: &i32, _sequence: Sequence, _end: bool| *sum += *event,
        state: 100,
    };
    let cursor = Arc::new(Cursor::new(-1));
    let mut desk = Desk::new((), sink, cursor, NoopWakeupNotifier);
    process_batch(&mut desk, &numbered(4), 0, 3);
    assert_eq!(200, desk.sink().state);
    desk.move_cursor(3);
    desk.wake();
    desk.handle(&7, 4, true);
    assert_eq!(207, desk.sink().state);
}

#[test]
fn a_stage_gets_only_what_the_stage_before_it_has_handled() {
    let log = Log::default();
    let earlier = Arc::new(Cursor::new(-1));
    let stage = SingleConsumerBarrier::new(earlier.clone());
    let wakes = noted(&log, &earlier);
    let mut desk = Desk::new((), logging_sink(&log), earlier, wakes);
    let mut sequence = 0;
    let ring_buffer = numbered(8);
    for upper in [0, 3, 4] {
        process_outcome(
            WaitOutcome::Available { upper },
            &mut desk,
            &ring_buffer,
            &mut sequence,
        );
        let available = stage.get_after(0);
        assert_eq!(upper, available);
        let handled = log.lock().unwrap().clone();
        for seen in 0..=available {
            assert!(handled
                .iter()
                .any(|note| matches!(note, Note::Handled(s, _, _) if *s == seen)));
        }
    }
}

#[test]
fn processors_that_split_the_work_handle_each_event_once() {
    let ring_buffer = numbered(4);
    let barrier = SingleConsumerBarrier::new(Arc::new(Cursor::new(9)));
    let shutdown = CachePadded::new(AtomicI64::new(10));
    let mut owned = vec![];
    for id in 0..2 {
        let handled = Arc::new(Mutex::new(vec![]));
        let mine = handled.clone();
        let sink = HandlerSink {
            event_handler: move |_: &i32, sequence: Sequence, _: bool| {
                if sequence % 2 == id {
                    mine.lock().unwrap().push(sequence);
                }
            },
        };
        let cursor = Arc::new(Cursor::new(-1));
        let waiter = BusySpin.new_waiter();
        let mut desk = Desk::new(waiter, sink, cursor.clone(), NoopWakeupNotifier);
        let mut sequence = 0;
        run_processor_loop(&mut desk, &barrier, &shutdown, &ring_buffer, &mut sequence);
        assert_eq!(9, cursor.relaxed_value());
        owned.push(handled.lock().unwrap().clone());
    }
    assert_eq!(vec![vec![0, 2, 4, 6, 8], vec![1, 3, 5, 7, 9]], owned);
}
