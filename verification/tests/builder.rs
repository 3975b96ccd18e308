use crossbeam_utils::CachePadded;
use disruptor::barrier::Barrier;
use disruptor::builder::multi::MPBuilder;
use disruptor::builder::NC;
use disruptor::consumer::SingleConsumerBarrier;
use disruptor::cursor::Cursor;
use disruptor::wait_strategies::blocking::LiteBlockingWaitStrategy;
use disruptor::wait_strategies::{BusySpin, WaitOutcome, WaitStrategy, Waiter, WakeupNotifier};
use std::sync::atomic::{AtomicI64, AtomicUsize, Ordering};
use std::sync::Arc;

type Start = MPBuilder<NC, i32, BusySpin, SingleConsumerBarrier, SingleConsumerBarrier>;

fn start() -> (Arc<Cursor>, Start) {
    let published = Arc::new(Cursor::new(-1));
    let barrier = Arc::new(SingleConsumerBarrier::new(Arc::clone(&published)));
    let builder = MPBuilder::new(8, || 5, BusySpin, Arc::clone(&barrier), barrier);
    (published, builder)
}

#[test]
fn a_builder_begins_without_consumers() {
    let (published, builder) = start();
    let shared = builder.shared();
    assert_eq!(8, shared.ring_buffer.capacity());
    assert_eq!(5, *shared.ring_buffer.get(7));
    assert_eq!(-1, shared.shutdown_at_sequence.load(Ordering::Relaxed));
    assert!(shared.current_consumer_cursors.is_empty());
    assert!(shared.thread_name.is_none());
    assert!(shared.affinity.is_none());
    published.store(3);
    assert_eq!(3, builder.dependent_barrier().get_after(0));
}

#[test]
fn a_stage_waits_for_the_one_consumer_before_it() {
    let (_published, builder) = start();
    let (processor, builder) = builder.handle_events_with(|_: &i32, _: i64, _: bool| {});
    assert_eq!(1, builder.shared().current_consumer_cursors.len());
    let builder = builder.and_then();
    assert!(builder.shared().current_consumer_cursors.is_empty());
    assert_eq!(-1, builder.dependent_barrier().get_after(0));
    processor.station.consumer_cursor.store(12);
    assert_eq!(12, builder.dependent_barrier().get_after(0));
}

#[test]
fn a_stage_waits_for_all_consumers_before_it() {
    let (_published, builder) = start();
    let (p1, builder) = builder.handle_events_with(|_: &i32, _: i64, _: bool| {});
    let (mut poller, builder) = builder.event_poller();
    let (p3, builder) = builder
        .handle_events_and_state_with(|_: &mut i32, _: &i32, _: i64, _: bool| {}, || 0);
    assert_eq!(3, builder.shared().current_consumer_cursors.len());
    let builder = builder.and_then();
    let barrier = builder.dependent_barrier();
    p1.station.consumer_cursor.store(12);
    p3.station.consumer_cursor.store(9);
    assert_eq!(-1, barrier.get_after(0));

    // The poller is behind the publication and ahead of the next stage.
    _published.store(10);
    assert_eq!(11, poller.poll().ok().unwrap().len());
    assert_eq!(9, barrier.get_after(0));
}

#[test]
fn gates_hold_the_next_stage_back() {
    let published = Arc::new(Cursor::new(-1));
    let barrier = Arc::new(SingleConsumerBarrier::new(published));
    let strategy = LiteBlockingWaitStrategy::default();
    let builder = MPBuilder::new(8, || 5, strategy, Arc::clone(&barrier), barrier);
    let (builder, gates) = builder.new_gates::<2>();
    let (p1, builder) = builder.handle_events_with(|_: &i32, _: i64, _: bool| {});
    let (p2, builder) = builder.handle_events_with(|_: &i32, _: i64, _: bool| {});
    let builder = builder.and_then_with_dependents(&gates);
    let barrier = builder.dependent_barrier();
    p1.station.consumer_cursor.store(20);
    p2.station.consumer_cursor.store(30);
    assert_eq!(-1, barrier.get_after(0));
    gates[0].set(7);
    assert_eq!(-1, barrier.get_after(0));
    gates[1].set(8);
    assert_eq!(7, barrier.get_after(0));
    gates[0].set(100);
    assert_eq!(8, barrier.get_after(0));
    gates[1].set(100);
    assert_eq!(20, barrier.get_after(0));
}

struct ReadyUnderTheLock(AtomicUsize);

impl Barrier for ReadyUnderTheLock {
    fn get_after(&self, requested: i64) -> i64 {
        // The first look of a waiter without a spin window fails.
        if self.0.fetch_add(1, Ordering::Relaxed) == 0 {
            requested - 1
        } else {
            requested
        }
    }
}

#[test]
fn gates_processors_and_producers_wake_the_same_waiters() {
    let published = Arc::new(Cursor::new(-1));
    let barrier = Arc::new(SingleConsumerBarrier::new(published));
    let strategy = LiteBlockingWaitStrategy::default();
    let builder = MPBuilder::new(8, || 5, strategy.clone(), Arc::clone(&barrier), barrier);
    let (builder, [gate]) = builder.new_gates::<1>();
    let (processor, builder) = builder.handle_events_with(|_: &i32, _: i64, _: bool| {});
    let parts = builder.build();

    let announce = || {
        let mut waiter = processor.station.wait_strategy.new_waiter();
        let shutdown = CachePadded::new(AtomicI64::new(-1));
        let outcome = waiter.wait_for(0, &ReadyUnderTheLock(AtomicUsize::new(0)), &shutdown);
        assert_eq!(WaitOutcome::Available { upper: 0 }, outcome);
        assert!(strategy.signal_needed());
    };
    announce();
    gate.set(1);
    assert!(!strategy.signal_needed());
    announce();
    parts.notifier.wake();
    assert!(!strategy.signal_needed());
    announce();
    processor.station.notifier.wake();
    assert!(!strategy.signal_needed());
    // A gate that was not advanced wakes nobody.
    announce();
    assert_eq!(Err(1), gate.compare_and_set(7, 8));
    assert!(strategy.signal_needed());
}

#[test]
fn producers_wait_for_the_last_consumers() {
    let (_published, builder) = start();
    let (first, builder) = builder.handle_events_with(|_: &i32, _: i64, _: bool| {});
    let builder = builder.and_then();
    let (second, builder) = builder.handle_events_with(|_: &i32, _: i64, _: bool| {});
    let (third, builder) = builder.handle_events_with(|_: &i32, _: i64, _: bool| {});
    let parts = builder.build();
    first.station.consumer_cursor.store(50);
    second.station.consumer_cursor.store(40);
    third.station.consumer_cursor.store(30);
    assert_eq!(30, parts.consumer_barrier.get_after(0));
    assert_eq!(5, *parts.ring_buffer.get(0));

    let (_published, builder) = start();
    let (only, builder) = builder.handle_events_with(|_: &i32, _: i64, _: bool| {});
    let parts = builder.build();
    only.station.consumer_cursor.store(3);
    assert_eq!(3, parts.consumer_barrier.get_after(0));
    assert_eq!(-1, parts.producer_barrier.get_after(0));
}

#[test]
fn settings_go_to_the_next_processor() {
    let (_published, builder) = start();
    let builder = builder.thread_name(String::from("reader"));
    let (named, builder) = builder.handle_events_with(|_: &i32, _: i64, _: bool| {});
    assert_eq!(Some("reader"), named.station.thread_name.as_deref());
    let (unnamed, builder) = builder.handle_events_with(|_: &i32, _: i64, _: bool| {});
    assert!(unnamed.station.thread_name.is_none());

    // A core that no machine has is refused.
    assert!(builder.pin_at_core(usize::MAX).is_err());
}

#[test]
fn a_listed_core_goes_to_the_next_processor() {
    let ids = core_affinity::get_core_ids().unwrap_or_default();
    if let Some(first) = ids.first() {
        let (_published, builder) = start();
        let builder = builder.pin_at_core(first.id).ok().unwrap();
        let (pinned, builder) = builder.handle_events_with(|_: &i32, _: i64, _: bool| {});
        assert_eq!(Some(first.id), pinned.station.affinity.map(|core| core.id()));
        let (free, _builder) = builder.handle_events_with(|_: &i32, _: i64, _: bool| {});
        assert!(free.station.affinity.is_none());
    }
}
