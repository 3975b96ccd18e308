use crossbeam_utils::CachePadded;
use disruptor::barrier::Barrier;
use disruptor::wait_strategies::blocking::{
    BlockingWaitStrategy, LiteBlockingWaitStrategy, Phase, Place, Plan,
};
use disruptor::wait_strategies::record::Record;
use disruptor::wait_strategies::{
    decide_wait, look, Budget, BusySpin, BusySpinWithSpinLoopHint, NoopWakeupNotifier, Pause,
    WaitOutcome, WaitStrategy, Waiter, WakeupNotifier, YieldNow, YieldingWaitStrategy,
    YieldingWaiter, SPIN_TRIES,
};
use disruptor::Sequence;
use std::sync::atomic::{AtomicI64, AtomicUsize, Ordering};
use std::sync::{mpsc, Arc};
use std::time::{Duration, Instant};

struct TestBarrier {
    available: Arc<AtomicI64>,
}

impl TestBarrier {
    fn new(v: i64) -> Self {
        Self {
            available: Arc::new(AtomicI64::new(v)),
        }
    }
}

impl Barrier for TestBarrier {
    fn get_after(&self, _prev: Sequence) -> Sequence {
        self.available.load(Ordering::Relaxed)
    }
}

struct CountingBarrier {
    polls_before_ready: AtomicUsize,
    polls: AtomicUsize,
}

impl CountingBarrier {
    fn new(polls_before_ready: usize) -> Self {
        Self {
            polls_before_ready: AtomicUsize::new(polls_before_ready),
            polls: AtomicUsize::new(0),
        }
    }
}

impl Barrier for CountingBarrier {
    fn get_after(&self, prev: Sequence) -> Sequence {
        let _ = self.polls.fetch_add(1, Ordering::Relaxed);
        if self.polls_before_ready.load(Ordering::Relaxed) == 0 {
            return prev;
        }
        let _ = self.polls_before_ready.fetch_sub(1, Ordering::Relaxed);
        prev - 1
    }
}

#[derive(Clone, Default)]
struct CountedYields(Arc<AtomicUsize>);

impl YieldNow for CountedYields {
    fn yield_now(&self) {
        let _ = self.0.fetch_add(1, Ordering::Relaxed);
    }
}

fn pause(duration: Duration) {
    let start = Instant::now();
    while start.elapsed() < duration {
        std::hint::spin_loop();
    }
}

#[test]
fn yielding_waiter_resets_spin_budget_each_wait() {
    let mut waiter = YieldingWaiter {
        spins_remaining: 0, // force-reset to prove it is restored
        thread: CountedYields::default(),
        record: Record::new(),
    };
    let barrier = TestBarrier::new(5);
    let shutdown = CachePadded::new(AtomicI64::new(-1));

    // immediate availability: should reset and return without consuming spins
    let available = waiter.wait_for(5, &barrier, &shutdown);
    assert!(matches!(available, WaitOutcome::Available { upper: 5 }));
    assert_eq!(waiter.spins_remaining, SPIN_TRIES);

    // withhold availability briefly to consume budget, then release
    let barrier = TestBarrier::new(4); // less than requested
    let shutdown = CachePadded::new(AtomicI64::new(-1));
    let barrier_ref = barrier.available.clone();
    crossbeam_utils::thread::scope(|scope| {
        let handle = scope.spawn(move |_| {
            pause(Duration::from_micros(50));
            barrier_ref.store(6, Ordering::Relaxed);
        });
        let _ = waiter.wait_for(6, &barrier, &shutdown);
        handle.join().unwrap();
    })
    .unwrap();

    // Next call should start with a fresh spin budget.
    let barrier = TestBarrier::new(7);
    let shutdown = CachePadded::new(AtomicI64::new(-1));
    let _ = waiter.wait_for(7, &barrier, &shutdown);
    assert_eq!(waiter.spins_remaining, SPIN_TRIES);
}

#[test]
fn yielding_waiter_honors_shutdown() {
    let mut waiter = YieldingWaiter {
        spins_remaining: SPIN_TRIES,
        thread: CountedYields::default(),
        record: Record::new(),
    };
    let barrier = TestBarrier::new(-1);
    let shutdown = CachePadded::new(AtomicI64::new(10));

    let res = waiter.wait_for(10, &barrier, &shutdown);
    assert!(matches!(res, WaitOutcome::Shutdown));
}

#[test]
fn busy_spin_waiter_observes_release_with_acquire_fence() {
    let mut waiter = BusySpin.new_waiter();
    let shutdown = Arc::new(CachePadded::new(AtomicI64::new(-1)));
    let data = Arc::new(AtomicI64::new(0));
    let barrier = TestBarrier::new(0);
    let barrier_for_thread = barrier.available.clone();
    let data_for_thread = data.clone();

    crossbeam_utils::thread::scope(|scope| {
        // Writer thread publishes data with Release before making sequence available.
        let handle = scope.spawn(move |_| {
            data_for_thread.store(1, Ordering::Release);
            barrier_for_thread.store(1, Ordering::Release);
        });

        // Wait for sequence 1; fence inside waiter should make the data visible.
        let available = waiter.wait_for(1, &barrier, shutdown.as_ref());
        assert!(matches!(available, WaitOutcome::Available { upper: 1 }));
        assert_eq!(data.load(Ordering::Acquire), 1);
        handle.join().unwrap();
    })
    .unwrap();
}

#[test]
fn busy_spin_waiter_exits_on_shutdown_race() {
    let mut waiter = BusySpin.new_waiter();
    let barrier = TestBarrier::new(-1);
    let shutdown = Arc::new(CachePadded::new(AtomicI64::new(-1)));

    // Flip shutdown while waiter would otherwise spin.
    let shutdown_ref = shutdown.clone();
    crossbeam_utils::thread::scope(|scope| {
        let handle = scope.spawn(move |_| {
            pause(Duration::from_micros(50));
            shutdown_ref.store(5, Ordering::Relaxed);
        });

        let res = waiter.wait_for(5, &barrier, shutdown.as_ref());
        assert!(matches!(res, WaitOutcome::Shutdown));
        handle.join().unwrap();
    })
    .unwrap();
}

#[test]
fn blocking_wait_strategy_wakes_waiters() {
    let barrier = TestBarrier::new(0);
    let shutdown = CachePadded::new(AtomicI64::new(-1));
    let strategy = BlockingWaitStrategy::default();
    let notifier = strategy.notifier();

    let (tx, rx) = mpsc::channel();
    let barrier_available = barrier.available.clone();
    crossbeam_utils::thread::scope(|scope| {
        let _ = scope.spawn(move |_| {
            let mut waiter = strategy.new_waiter();
            let res = waiter.wait_for(1, &barrier, &shutdown);
            tx.send(res).unwrap();
        });

        pause(Duration::from_millis(10));
        barrier_available.store(1, Ordering::Relaxed);
        notifier.wake();

        let outcome = rx.recv_timeout(Duration::from_secs(1)).unwrap();
        assert!(matches!(outcome, WaitOutcome::Available { upper: 1 }));
    })
    .unwrap();
}

#[test]
fn blocking_wait_strategy_spin_window_can_avoid_sleep() {
    let barrier = CountingBarrier::new(5);
    let shutdown = CachePadded::new(AtomicI64::new(-1));
    let strategy = BlockingWaitStrategy::default().with_spin_tries(16);
    let mut waiter = strategy.new_waiter();

    // Should make progress without any notifier wake() because it never blocks.
    let outcome = waiter.wait_for(1, &barrier, &shutdown);
    assert!(matches!(outcome, WaitOutcome::Available { upper: 1 }));
}

#[test]
fn lite_blocking_wait_strategy_skips_wake_when_no_waiters() {
    let strategy = LiteBlockingWaitStrategy::default();
    let notifier = strategy.notifier();
    assert!(!strategy.signal_needed());

    // Should be a cheap no-op: nobody is waiting.
    notifier.wake();
    assert!(!strategy.signal_needed());
}

#[test]
fn lite_blocking_wait_strategy_spin_window_can_avoid_indicating_signal_needed() {
    let barrier = CountingBarrier::new(5);
    let shutdown = CachePadded::new(AtomicI64::new(-1));
    let strategy = LiteBlockingWaitStrategy::default().with_spin_tries(16);
    let mut waiter = strategy.new_waiter();

    // The barrier becomes available during the spin window, so the waiter should never take
    // the condvar path (and therefore never set `signal_needed`).
    let outcome = waiter.wait_for(1, &barrier, &shutdown);
    assert!(matches!(outcome, WaitOutcome::Available { upper: 1 }));
    assert!(!strategy.signal_needed());
}

#[test]
fn lite_blocking_wait_strategy_wakes_waiters() {
    let barrier = TestBarrier::new(0);
    let shutdown = CachePadded::new(AtomicI64::new(-1));
    let strategy = LiteBlockingWaitStrategy::default();
    let notifier = strategy.notifier();

    let (tx, rx) = mpsc::channel();
    let barrier_available = barrier.available.clone();
    let strategy_for_thread = strategy.clone();
    crossbeam_utils::thread::scope(|scope| {
        let _ = scope.spawn(move |_| {
            let mut waiter = strategy_for_thread.new_waiter();
            let res = waiter.wait_for(1, &barrier, &shutdown);
            tx.send(res).unwrap();
        });

        // Give the waiter a chance to park.
        pause(Duration::from_millis(10));

        barrier_available.store(1, Ordering::Relaxed);
        notifier.wake();

        let outcome = rx.recv_timeout(Duration::from_secs(1)).unwrap();
        assert!(matches!(outcome, WaitOutcome::Available { upper: 1 }));
    })
    .unwrap();
}

#[test]
fn lite_waiter_asks_for_a_signal_before_it_looks_under_the_lock() {
    // Two looks fail without the lock, and one succeeds under it.
    let barrier = CountingBarrier::new(2);
    let shutdown = CachePadded::new(AtomicI64::new(-1));
    let strategy = LiteBlockingWaitStrategy::default().with_spin_tries(1);
    let mut waiter = strategy.new_waiter();

    let outcome = waiter.wait_for(1, &barrier, &shutdown);
    assert_eq!(outcome, WaitOutcome::Available { upper: 1 });
    assert!(strategy.signal_needed());

    // The next wake takes the flag down, and all clones of the strategy see that.
    let clone = strategy.clone();
    clone.notifier().wake();
    assert!(!strategy.signal_needed());
}

#[test]
fn a_blocking_waiter_can_be_woken_for_a_shutdown() {
    let barrier = TestBarrier::new(0);
    let shutdown = CachePadded::new(AtomicI64::new(-1));
    let strategy = BlockingWaitStrategy::default().with_spin_tries(3);
    let notifier = strategy.notifier();

    crossbeam_utils::thread::scope(|scope| {
        let handle = scope.spawn(|_| strategy.new_waiter().wait_for(1, &barrier, &shutdown));
        pause(Duration::from_millis(10));
        // A wake without a reason sends the waiter back to sleep.
        notifier.wake();
        pause(Duration::from_millis(10));
        shutdown.store(1, Ordering::Relaxed);
        notifier.clone().wake();
        assert_eq!(handle.join().unwrap(), WaitOutcome::Shutdown);
    })
    .unwrap();
}

#[test]
fn many_waiters_share_one_strategy() {
    let available = Arc::new(AtomicI64::new(-1));
    let shutdown = CachePadded::new(AtomicI64::new(-1));
    let strategy = LiteBlockingWaitStrategy::default();
    let notifier = strategy.notifier();

    crossbeam_utils::thread::scope(|scope| {
        let mut handles = vec![];
        for requested in 0..4 {
            let barrier = TestBarrier {
                available: available.clone(),
            };
            let mut waiter = strategy.new_waiter();
            let shutdown = &shutdown;
            handles.push(scope.spawn(move |_| waiter.wait_for(requested, &barrier, shutdown)));
        }
        for upper in 0..4 {
            pause(Duration::from_millis(2));
            available.store(upper, Ordering::Release);
            notifier.wake();
        }
        for (requested, handle) in handles.into_iter().enumerate() {
            match handle.join().unwrap() {
                WaitOutcome::Available { upper } => assert!(upper >= requested as i64),
                _ => panic!("no shutdown, no timeout"),
            }
        }
    })
    .unwrap();
}

#[test]
fn busy_spin_strategies_look_until_the_event_is_there() {
    let shutdown = CachePadded::new(AtomicI64::new(-1));

    let barrier = CountingBarrier::new(7);
    let outcome = BusySpin.new_waiter().wait_for(3, &barrier, &shutdown);
    assert_eq!(outcome, WaitOutcome::Available { upper: 3 });
    assert_eq!(barrier.polls.load(Ordering::Relaxed), 8);

    let barrier = CountingBarrier::new(7);
    let outcome = BusySpinWithSpinLoopHint.new_waiter().wait_for(3, &barrier, &shutdown);
    assert_eq!(outcome, WaitOutcome::Available { upper: 3 });
    assert_eq!(barrier.polls.load(Ordering::Relaxed), 8);

    let barrier = TestBarrier::new(2);
    shutdown.store(3, Ordering::Relaxed);
    let outcome = BusySpinWithSpinLoopHint.new_waiter().wait_for(3, &barrier, &shutdown);
    assert_eq!(outcome, WaitOutcome::Shutdown);

    BusySpin.notifier().wake();
    BusySpinWithSpinLoopHint.notifier().wake();
    NoopWakeupNotifier.wake();
}

#[test]
fn yielding_waiter_spins_first_and_yields_then() {
    let yields = CountedYields::default();
    let strategy = YieldingWaitStrategy {
        thread: yields.clone(),
    };
    let shutdown = CachePadded::new(AtomicI64::new(-1));

    let mut waiter = strategy.clone().new_waiter();
    assert_eq!(waiter.spins_remaining, 100);
    let outcome = waiter.wait_for(0, &CountingBarrier::new(40), &shutdown);
    assert_eq!(outcome, WaitOutcome::Available { upper: 0 });
    assert_eq!(waiter.spins_remaining, 60);
    assert_eq!(yields.0.load(Ordering::Relaxed), 0);

    let outcome = waiter.wait_for(0, &CountingBarrier::new(103), &shutdown);
    assert_eq!(outcome, WaitOutcome::Available { upper: 0 });
    assert_eq!(waiter.spins_remaining, 0);
    assert_eq!(yields.0.load(Ordering::Relaxed), 3);

    let mut budget = Budget {
        spins_remaining: 1,
        thread: &yields,
    };
    assert_eq!(budget.next_pause(), Pause::Spin);
    assert_eq!(budget.next_pause(), Pause::Yield);
    assert_eq!(budget.spins_remaining, 0);
}

#[test]
fn a_look_prefers_the_event_to_the_shutdown() {
    assert_eq!(
        decide_wait(5, 9, 5),
        Some(WaitOutcome::Available { upper: 9 })
    );
    assert_eq!(
        decide_wait(5, 5, -1),
        Some(WaitOutcome::Available { upper: 5 })
    );
    assert_eq!(decide_wait(5, 4, 5), Some(WaitOutcome::Shutdown));
    assert_eq!(decide_wait(5, 4, 6), None);

    let shutdown = CachePadded::new(AtomicI64::new(5));
    assert_eq!(
        look(&mut Record::new(), 5, &TestBarrier::new(9), &shutdown),
        Some(WaitOutcome::Available { upper: 9 })
    );
    assert_eq!(
        look(&mut Record::new(), 5, &TestBarrier::new(4), &shutdown),
        Some(WaitOutcome::Shutdown)
    );
    assert_eq!(
        look(&mut Record::new(), 4, &TestBarrier::new(3), &shutdown),
        None
    );
}

#[test]
fn a_blocking_waiter_goes_through_its_phases() {
    let plan = Plan {
        requested: 7,
        spin_tries: 2,
        announces: true,
    };
    let round = Place::Round;
    let guarded = Place::Guarded { epoch: 3 };
    assert_eq!(
        plan.barrier_gave(round, 7),
        Phase::Fence {
            place: round,
            upper: 7
        }
    );
    assert_eq!(
        plan.barrier_gave(round, 6),
        Phase::ReadShutdown { place: round }
    );
    assert_eq!(
        plan.shutdown_gave(guarded, 7),
        Phase::Done {
            outcome: WaitOutcome::Shutdown
        }
    );
    assert_eq!(
        plan.shutdown_gave(round, -1),
        Phase::AskBarrier {
            place: Place::Window { left: 2 }
        }
    );
    assert_eq!(
        plan.shutdown_gave(Place::Window { left: 2 }, -1),
        Phase::Spin { left: 2 }
    );
    assert_eq!(
        plan.spun(2),
        Phase::AskBarrier {
            place: Place::Window { left: 1 }
        }
    );
    assert_eq!(plan.spun(1), Phase::Lock);
    assert_eq!(
        plan.shutdown_gave(guarded, -1),
        Phase::Sleep { epoch: 3 }
    );
    assert_eq!(plan.lock_gave(3), Phase::Announce { epoch: 3 });
    assert_eq!(plan.sleep_gave(3, 3), Phase::Announce { epoch: 3 });
    assert_eq!(
        plan.sleep_gave(3, 4),
        Phase::AskBarrier { place: round }
    );

    let plain = Plan {
        requested: 7,
        spin_tries: 0,
        announces: false,
    };
    assert_eq!(plain.shutdown_gave(round, -1), Phase::Lock);
    assert_eq!(
        plain.lock_gave(3),
        Phase::AskBarrier { place: guarded }
    );
    assert_eq!(
        plain.sleep_gave(3, 3),
        Phase::AskBarrier { place: guarded }
    );
}
