use disruptor::barrier::Barrier;
use disruptor::consumer::{
    slower_of, MultiConsumerBarrier, MultiConsumerDependentsBarrier, SingleConsumerBarrier,
};
use disruptor::cursor::Cursor;
use disruptor::sequence::steps::Advance;
use disruptor::sequence::{
    exchange_and_wake, set_and_wake, DependentSequence, GatedSequence, INITIAL_SEQUENCE,
};
use disruptor::wait_strategies::{decide_wait, WakeupNotifier};
use std::sync::atomic::{AtomicUsize, Ordering};
use std::sync::Arc;

#[test]
fn multi_consumer_gating_barrier_respects_external_gate() {
    let c1 = Arc::new(Cursor::new(-1));
    let c2 = Arc::new(Cursor::new(-1));
    c1.store(10);
    c2.store(12);

    let gating_low = Arc::new(DependentSequence::with_value(5));
    let gating_high = Arc::new(DependentSequence::with_value(20));

    let barrier =
        MultiConsumerDependentsBarrier::new(vec![c1.clone(), c2.clone()], vec![gating_low]);
    assert_eq!(5, barrier.get_after(0));

    let barrier = MultiConsumerDependentsBarrier::new(vec![c1, c2], vec![gating_high]);
    assert_eq!(10, barrier.get_after(0));
}

#[test]
fn dependents_barrier_clamps_when_dependent_moves_backwards() {
    let c1 = Arc::new(Cursor::new(-1));
    let c2 = Arc::new(Cursor::new(-1));
    c1.store(8);
    c2.store(9);

    let dep = Arc::new(DependentSequence::with_value(7));
    let barrier =
        MultiConsumerDependentsBarrier::new(vec![c1.clone(), c2.clone()], vec![dep.clone()]);
    assert_eq!(7, barrier.get_after(0));

    // Move the dependent sequence backwards; barrier should clamp to the new minimum.
    dep.set(3);
    assert_eq!(3, barrier.get_after(0));
}

#[test]
fn a_single_consumer_barrier_shows_its_cursor() {
    let cursor = Arc::new(Cursor::new(INITIAL_SEQUENCE));
    let barrier = SingleConsumerBarrier::new(cursor.clone());
    assert_eq!(-1, barrier.get_after(0));
    cursor.store(41);
    assert_eq!(41, barrier.get_after(0));
    assert_eq!(41, barrier.get_after(100));
    assert_eq!(41, cursor.relaxed_value());
}

#[test]
fn a_group_waits_for_its_slowest_member() {
    let c1 = Arc::new(Cursor::new(4));
    let c2 = Arc::new(Cursor::new(3));
    let c3 = Arc::new(Cursor::new(9));
    let barrier = MultiConsumerBarrier::new(vec![c1.clone(), c2.clone(), c3]);
    assert_eq!(3, barrier.get_after(0));
    c2.store(8);
    assert_eq!(4, barrier.get_after(0));

    // A group of one is its member, and an empty group holds nobody back.
    assert_eq!(4, MultiConsumerBarrier::new(vec![c1]).get_after(0));
    assert_eq!(i64::MAX, MultiConsumerBarrier::new(vec![]).get_after(0));
}

#[test]
fn a_stage_advances_to_the_minimum_of_all_gates() {
    let cursors = vec![Arc::new(Cursor::new(30)), Arc::new(Cursor::new(31))];
    let flushed = Arc::new(DependentSequence::new());
    let replicated = Arc::new(DependentSequence::default());
    let gates = vec![flushed.clone(), replicated.clone()];
    let barrier = MultiConsumerDependentsBarrier::new(cursors.clone(), gates);

    // New gates are closed, so that not even the first event is available.
    assert_eq!(-1, barrier.get_after(0));
    assert_eq!(None, decide_wait(0, barrier.get_after(0), -2));
    flushed.set(20);
    assert_eq!(-1, barrier.get_after(0));
    replicated.set(25);
    assert_eq!(20, barrier.get_after(0));
    flushed.set(40);
    replicated.set(40);
    assert_eq!(30, barrier.get_after(0));

    // Without gates the barrier is that of the consumers.
    let ungated = MultiConsumerDependentsBarrier::new(cursors.clone(), vec![]);
    assert_eq!(
        MultiConsumerBarrier::new(cursors).get_after(0),
        ungated.get_after(0)
    );
}

#[test]
fn the_slower_of_two() {
    assert_eq!(3, slower_of(3, 4));
    assert_eq!(3, slower_of(4, 3));
    assert_eq!(4, slower_of(4, 4));
}

#[derive(Clone, Default)]
struct CountedWakes(Arc<AtomicUsize>);

impl WakeupNotifier for CountedWakes {
    fn wake(&self) {
        let _ = self.0.fetch_add(1, Ordering::Relaxed);
    }
}

#[test]
fn a_dependent_sequence_and_its_clones_share_the_value() {
    let sequence = DependentSequence::new();
    assert_eq!(-1, sequence.get());
    let clone = sequence.clone();
    clone.set(5);
    assert_eq!(5, sequence.get());
    assert_eq!(Ok(5), sequence.compare_and_set(5, 9));
    assert_eq!(9, clone.get());
    assert_eq!(Err(9), clone.compare_and_set(5, 11));
    assert_eq!(9, sequence.get());
}

#[test]
fn a_gated_sequence_wakes_when_it_was_advanced() {
    let wakes = CountedWakes::default();
    let gate = GatedSequence::new(DependentSequence::new(), wakes.clone());
    assert_eq!(-1, gate.get());
    assert_eq!(0, wakes.0.load(Ordering::Relaxed));

    gate.set(3);
    assert_eq!(3, gate.get());
    assert_eq!(3, gate.dependent().get());
    assert_eq!(1, wakes.0.load(Ordering::Relaxed));

    assert_eq!(Err(3), gate.compare_and_set(4, 5));
    assert_eq!(1, wakes.0.load(Ordering::Relaxed));
    assert_eq!(Ok(3), gate.compare_and_set(3, 5));
    assert_eq!(2, wakes.0.load(Ordering::Relaxed));

    let clone = gate.clone();
    clone.set(8);
    assert_eq!(8, gate.get());
    assert_eq!(3, wakes.0.load(Ordering::Relaxed));

    let bare = DependentSequence::with_value(1);
    let mut advance = Advance::new(&bare, &wakes);
    set_and_wake(&mut advance, 2);
    assert_eq!(2, bare.get());
    assert_eq!(4, wakes.0.load(Ordering::Relaxed));
    assert_eq!(Err(2), exchange_and_wake(&mut advance, 1, 3));
    assert_eq!(4, wakes.0.load(Ordering::Relaxed));
    assert_eq!(Ok(2), exchange_and_wake(&mut advance, 2, 3));
    assert_eq!(3, bare.get());
    assert_eq!(5, wakes.0.load(Ordering::Relaxed));

    // The bare sequence wakes nobody.
    gate.dependent().set(9);
    assert_eq!(9, clone.get());
    assert_eq!(5, wakes.0.load(Ordering::Relaxed));
}
