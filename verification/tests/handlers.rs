use disruptor::barrier::Barrier;
use disruptor::builder::multi::{MPBuilder, MultiProducerParts};
use disruptor::builder::NC;
use disruptor::consumer::{ProcessorExit, SingleConsumerBarrier};
use disruptor::cursor::Cursor;
use disruptor::event_handler::{EventHandler, EventHandlerWithState};
use disruptor::wait_strategies::blocking::LiteBlockingWaitStrategy;
use disruptor::wait_strategies::{WaitStrategy, WakeupNotifier, YieldNow, YieldingWaitStrategy};
use std::sync::atomic::{AtomicUsize, Ordering};
use std::sync::{Arc, Mutex};

#[derive(Default)]
struct Event {
    value: AtomicUsize,
}

#[derive(Clone, Default)]
struct Spin;

impl YieldNow for Spin {
    fn yield_now(&self) {
        std::hint::spin_loop();
    }
}

/// Publishes events one by one through a cursor that the first consumers watch.
struct Publisher<C, W: WaitStrategy> {
    parts: MultiProducerParts<Event, C, W, SingleConsumerBarrier>,
    published: Arc<Cursor>,
    next: i64,
}

impl<C: Barrier, W: WaitStrategy> Publisher<C, W> {
    fn new(
        parts: MultiProducerParts<Event, C, W, SingleConsumerBarrier>,
        published: Arc<Cursor>,
    ) -> Self {
        Self {
            parts,
            published,
            next: 0,
        }
    }

    fn publish(&mut self, update: impl FnOnce(&Event)) {
        loop {
            let slowest = self.parts.consumer_barrier.get_after(self.next);
            let ring_buffer = &self.parts.ring_buffer;
            if ring_buffer.available_capacity(self.next - 1, slowest) > 0 {
                break;
            }
            std::hint::spin_loop();
        }
        update(self.parts.ring_buffer.get(self.next));
        self.published.store(self.next);
        self.parts.notifier.wake();
        self.next += 1;
    }

    fn shut_down(self) {
        self.parts
            .shutdown_at_sequence
            .store(self.next, Ordering::Relaxed);
        self.parts.notifier.wake();
    }
}

fn build<W: WaitStrategy>(
    size: usize,
    strategy: W,
) -> (
    Arc<Cursor>,
    MPBuilder<NC, Event, W, SingleConsumerBarrier, SingleConsumerBarrier>,
) {
    let published = Arc::new(Cursor::new(-1));
    let barrier = Arc::new(SingleConsumerBarrier::new(Arc::clone(&published)));
    let builder = MPBuilder::new(size, Event::default, strategy, Arc::clone(&barrier), barrier);
    (published, builder)
}

fn yielding() -> YieldingWaitStrategy<Spin> {
    YieldingWaitStrategy { thread: Spin }
}

struct CountingHandler {
    seen: Arc<AtomicUsize>,
}

impl EventHandler<Event> for CountingHandler {
    fn on_event(&mut self, _event: &Event, _sequence: i64, _end_of_batch: bool) {
        self.seen.fetch_add(1, Ordering::Relaxed);
    }
}

struct State {
    local: usize,
    published: Arc<AtomicUsize>,
}

struct StatefulHandler;

impl EventHandlerWithState<Event, State> for StatefulHandler {
    fn on_event(&mut self, state: &mut State, _event: &Event, _sequence: i64, _end_of_batch: bool) {
        state.local += 1;
        // Make state mutation observable outside the consumer thread.
        state.published.store(state.local, Ordering::Relaxed);
    }
}

#[test]
fn struct_event_handler_works() {
    let seen = Arc::new(AtomicUsize::new(0));
    let handler = CountingHandler { seen: seen.clone() };

    let (published, builder) = build(8, yielding());
    let (processor, builder) = builder.handle_events_with(handler);
    let mut producer = Publisher::new(builder.build(), published);

    crossbeam_utils::thread::scope(|scope| {
        let consumer = scope.spawn(move |_| processor.start().run());
        for i in 0..128 {
            producer.publish(|e| e.value.store(i, Ordering::Relaxed));
        }
        producer.shut_down();
        assert_eq!(consumer.join().unwrap(), ProcessorExit::Shutdown);
    })
    .unwrap();
    assert_eq!(seen.load(Ordering::Relaxed), 128);
}

#[test]
fn stateful_struct_handler_works_and_mutates_state() {
    let published = Arc::new(AtomicUsize::new(0));

    let (cursor, builder) = build(8, yielding());
    let (processor, builder) = builder.handle_events_and_state_with(StatefulHandler, {
        let published = published.clone();
        move || State {
            local: 0,
            published,
        }
    });
    let mut producer = Publisher::new(builder.build(), cursor);

    crossbeam_utils::thread::scope(|scope| {
        scope.spawn(move |_| processor.start().run());
        for i in 0..77 {
            producer.publish(|e| e.value.store(i, Ordering::Relaxed));
        }
        producer.shut_down();
    })
    .unwrap();
    assert_eq!(published.load(Ordering::Relaxed), 77);
}

#[test]
fn stateful_closure_handler_works() {
    let published = Arc::new(AtomicUsize::new(0));

    let (cursor, builder) = build(8, yielding());
    let (processor, builder) = builder.handle_events_and_state_with(
        |state: &mut State, _e: &Event, _seq: i64, _eob: bool| {
            state.local += 1;
            state.published.store(state.local, Ordering::Relaxed);
        },
        {
            let published = published.clone();
            move || State {
                local: 0,
                published,
            }
        },
    );
    let mut producer = Publisher::new(builder.build(), cursor);

    crossbeam_utils::thread::scope(|scope| {
        scope.spawn(move |_| processor.start::<State>().run());
        for i in 0..33 {
            producer.publish(|e| e.value.store(i, Ordering::Relaxed));
        }
        producer.shut_down();
    })
    .unwrap();
    assert_eq!(published.load(Ordering::Relaxed), 33);
}

#[test]
fn multi_producer_with_mixed_handlers_works() {
    let seen = Arc::new(AtomicUsize::new(0));
    let published = Arc::new(AtomicUsize::new(0));

    let (cursor, builder) = build(64, yielding());
    let (counting, builder) = builder.handle_events_with(CountingHandler { seen: seen.clone() });
    let (stateful, builder) = builder.handle_events_and_state_with(StatefulHandler, {
        let published = published.clone();
        move || State {
            local: 0,
            published,
        }
    });
    let producer = Mutex::new(Publisher::new(builder.build(), cursor));

    crossbeam_utils::thread::scope(|scope| {
        scope.spawn(move |_| counting.start().run());
        scope.spawn(move |_| stateful.start::<State>().run());
        let producer = &producer;
        let t1 = scope.spawn(move |_| {
            for i in 0..1000 {
                let update = |e: &Event| e.value.store(i, Ordering::Relaxed);
                producer.lock().unwrap().publish(update);
            }
        });
        let t2 = scope.spawn(move |_| {
            for i in 1000..2000 {
                let update = |e: &Event| e.value.store(i, Ordering::Relaxed);
                producer.lock().unwrap().publish(update);
            }
        });
        t1.join().unwrap();
        t2.join().unwrap();
        let next = producer.lock().unwrap().next;
        let producer = producer.lock().unwrap();
        producer
            .parts
            .shutdown_at_sequence
            .store(next, Ordering::Relaxed);
    })
    .unwrap();

    // CountingHandler sees all events.
    assert_eq!(seen.load(Ordering::Relaxed), 2000);
    // StatefulHandler stores a running total; final value should match total events.
    assert_eq!(published.load(Ordering::Relaxed), 2000);
}

#[test]
fn a_pipeline_hands_every_event_from_stage_to_stage() {
    let first = Arc::new(Mutex::new(vec![]));
    let second = Arc::new(Mutex::new(vec![]));
    let last = Arc::new(Mutex::new(vec![]));
    let (cursor, builder) = build(4, LiteBlockingWaitStrategy::default().with_spin_tries(3));
    let note = |log: &Arc<Mutex<Vec<(i64, usize)>>>| {
        let log = log.clone();
        move |e: &Event, sequence: i64, _eob: bool| {
            let value = e.value.load(Ordering::Relaxed);
            log.lock().unwrap().push((sequence, value));
        }
    };
    let (p1, builder) = builder.handle_events_with(note(&first));
    let (p2, builder) = builder.handle_events_with(note(&second));
    let (gated, [gate]) = builder.new_gates::<1>();
    let builder = gated.and_then_with_dependents(&[gate.clone()]);
    let (p3, builder) = builder.handle_events_with(note(&last));
    let mut producer = Publisher::new(builder.build(), cursor);

    crossbeam_utils::thread::scope(|scope| {
        for processor in [p1, p2] {
            scope.spawn(move |_| processor.start().run());
        }
        let end = scope.spawn(move |_| processor_exit(p3.start().run()));
        for i in 0..3 {
            producer.publish(|e| e.value.store(7 * i, Ordering::Relaxed));
        }
        // It is closed, so nothing has come to the last stage.
        assert_eq!(-1, gate.get());
        assert!(last.lock().unwrap().is_empty());
        gate.set(i64::MAX);
        for i in 3..50 {
            producer.publish(|e| e.value.store(7 * i, Ordering::Relaxed));
        }
        producer.shut_down();
        assert_eq!(end.join().unwrap(), "shut down");
    })
    .unwrap();

    let expected: Vec<(i64, usize)> = (0..50).map(|i| (i, 7 * i as usize)).collect();
    assert_eq!(expected, *first.lock().unwrap());
    assert_eq!(expected, *second.lock().unwrap());
    assert_eq!(expected, *last.lock().unwrap());
}

fn processor_exit(exit: ProcessorExit) -> &'static str {
    match exit {
        ProcessorExit::Shutdown => "shut down",
        ProcessorExit::TimedOut => "timed out",
        ProcessorExit::SequencesExhausted => "exhausted",
    }
}

#[test]
fn closures_are_handlers() {
    let mut sum = 0;
    let mut handler = |e: &i32, sequence: i64, end_of_batch: bool| {
        sum += *e as i64 + 10 * sequence + if end_of_batch { 100 } else { 0 };
    };
    handler.on_event(&1, 2, false);
    handler.on_event(&3, 3, true);
    assert_eq!(21 + 133, sum);

    let mut handler = |state: &mut Vec<i64>, _e: &i32, sequence: i64, _end_of_batch: bool| {
        state.push(sequence);
    };
    let mut state = vec![];
    handler.on_event(&mut state, &1, 8, false);
    handler.on_event(&mut state, &1, 9, true);
    assert_eq!(vec![8, 9], state);
}
