//! Records of what a waiter or a waker did, access by access.
//!
//! What a [`Record`] or a [`Ringer`] says was done by it, in this order: its fields are private, and
//! nothing but the methods that make an access extends it. What waiters and wakers of a blocking
//! strategy share is a [`Bell`], and nothing but these two can get at what is in it.

use crate::atomics::{
    fence_acquire, fenced_acquire, flag_made, flag_raised, flag_read, flag_taken, load_relaxed,
    loaded_relaxed, raise_flag, read_flag, take_flag,
};
use crate::barrier::Barrier;
use crate::monitor::{guarded_epoch, guarded_monitor, EpochGuard, Monitor};
use crate::wait_strategies::{spun, yielded, YieldNow};
use crate::Sequence;
use crossbeam_utils::CachePadded;
use std::sync::atomic::{AtomicBool, AtomicI64};
use std::sync::Arc;
use vstd::prelude::*;

verus! {

/// What a barrier can give, for what it is asked.
pub type Answers = spec_fn(Sequence, Sequence) -> bool;

/// One access of a waiter, and what it gave.
pub enum Access {
    /// A barrier was asked.
    Barrier {
        /// What the barrier that was asked can give.
        answers: Answers,
        /// What it was asked for.
        requested: Sequence,
        /// What it gave.
        available: Sequence,
    },
    /// A shutdown marker was read.
    Marker {
        /// The marker.
        cell: CachePadded<AtomicI64>,
        /// What it held.
        shutdown_at: Sequence,
    },
    /// An `Acquire` fence was issued.
    Fence,
    /// The processor got a spin loop hint.
    Spin,
    /// The thread yielded.
    Yield,
    /// The lock was taken, and the counter stood at `epoch`.
    Lock {
        /// What the counter was.
        epoch: u64,
    },
    /// The flag was raised.
    Announcement,
    /// The thread slept, and the counter stood at `now` when it had the lock back.
    Sleep {
        /// What the counter was.
        now: u64,
    },
}

/// What the barrier can give, for what it is asked.
pub open spec fn answers_of<B: Barrier>(barrier: &B) -> Answers {
    |requested: Sequence, available: Sequence| barrier.observes(requested, available)
}

/// The barrier with these answers was asked for `requested` and gave `available`.
pub open spec fn barrier_gave(
    answers: Answers,
    requested: Sequence,
    available: Sequence,
) -> Access {
    Access::Barrier { answers, requested, available }
}

/// The marker held the sequence.
pub open spec fn marker_gave(shutdown: &CachePadded<AtomicI64>, shutdown_at: Sequence) -> Access {
    Access::Marker { cell: *shutdown, shutdown_at }
}

/// What waiters and wakers share: a monitor and, if waiters announce that they may sleep, a flag to
/// do so.
pub struct Bell {
    monitor: Monitor,
    signal_needed: Option<AtomicBool>,
}

impl Bell {
    /// What the waiters sleep on.
    pub closed spec fn monitor(&self) -> Monitor {
        self.monitor
    }

    /// The flag in which waiters announce that they may sleep.
    pub closed spec fn flag(&self) -> Option<AtomicBool> {
        self.signal_needed
    }

    /// A bell without a flag.
    pub fn new() -> (bell: Self)
        ensures
            bell.monitor().made(),
            bell.flag() is None,
    {
        Bell { monitor: Monitor::new(), signal_needed: None }
    }

    /// A bell with a flag, which is down.
    pub fn with_flag() -> (bell: Self)
        ensures
            bell.monitor().made(),
            bell.flag() matches Some(flag) && flag_made(flag, false),
    {
        Bell { monitor: Monitor::new(), signal_needed: Some(AtomicBool::new(false)) }
    }

    /// Whether the flag is up. Without a flag, it is not.
    pub fn signal_needed(&self) -> (needed: bool)
        ensures
            match self.flag() {
                Some(flag) => flag_read(flag, needed),
                None => !needed,
            },
    {
        match &self.signal_needed {
            Some(flag) => read_flag(flag),
            None => false,
        }
    }

    /// Where the counter stands that every ringing raises.
    pub fn epoch(&self) -> (epoch: u64)
        ensures
            exists|guard: EpochGuard<'_>| #[trigger]
                self.monitor().locked(guard) && epoch == guarded_epoch(guard),
    {
        let guard = self.monitor.lock();
        let epoch = guard.epoch();
        assert(self.monitor().locked(guard));
        epoch
    }
}

/// What a waiter that does not sleep did so far.
pub struct Record {
    log: Ghost<Seq<Access>>,
}

impl Record {
    /// The accesses, in order.
    pub closed spec fn log(&self) -> Seq<Access> {
        self.log@
    }

    /// The accesses were made in addition.
    pub open spec fn extends(&self, before: &Self, accesses: Seq<Access>) -> bool {
        self.log() == before.log() + accesses
    }

    /// The record of a waiter that has done nothing yet.
    pub fn new() -> (record: Self)
        ensures
            record.log() == Seq::<Access>::empty(),
    {
        Record { log: Ghost(Seq::empty()) }
    }

    /// Asks the barrier.
    pub fn ask<B: Barrier>(&mut self, requested: Sequence, barrier: &B) -> (available: Sequence)
        ensures
            barrier.observes(requested, available),
            final(self).extends(
                old(self),
                seq![barrier_gave(answers_of(barrier), requested, available)],
            ),
    {
        let available = barrier.get_after(requested);
        self.log = Ghost(self.log@ + seq![barrier_gave(answers_of(barrier), requested, available)]);
        available
    }

    /// Reads the shutdown marker with `Relaxed` ordering.
    pub fn read_marker(&mut self, shutdown: &CachePadded<AtomicI64>) -> (shutdown_at: Sequence)
        ensures
            loaded_relaxed(*shutdown, shutdown_at),
            final(self).extends(old(self), seq![marker_gave(shutdown, shutdown_at)]),
    {
        let shutdown_at = load_relaxed(shutdown);
        self.log = Ghost(self.log@ + seq![marker_gave(shutdown, shutdown_at)]);
        shutdown_at
    }

    /// Issues an `Acquire` fence.
    pub fn fence(&mut self)
        ensures
            fenced_acquire(),
            final(self).extends(old(self), seq![Access::Fence]),
    {
        fence_acquire();
        self.log = Ghost(self.log@ + seq![Access::Fence]);
    }

    /// Gives the processor a spin loop hint.
    pub fn spin(&mut self)
        ensures
            spun(),
            final(self).extends(old(self), seq![Access::Spin]),
    {
        std::hint::spin_loop();
        self.log = Ghost(self.log@ + seq![Access::Spin]);
    }

    /// Yields the thread.
    pub fn yield_now<Y: YieldNow>(&mut self, thread: &Y)
        ensures
            yielded(thread),
            final(self).extends(old(self), seq![Access::Yield]),
    {
        thread.yield_now();
        self.log = Ghost(self.log@ + seq![Access::Yield]);
    }
}

/// What a waiter that sleeps did so far, and the bell that it sleeps by.
pub struct SleepRecord {
    bell: Arc<Bell>,
    record: Record,
}

/// A handle on the bell of a [`SleepRecord`], which nothing can be done with but by that record.
pub struct BellHandle {
    bell: Arc<Bell>,
}

impl BellHandle {
    /// The bell.
    pub closed spec fn bell(&self) -> Bell {
        *self.bell
    }
}

impl SleepRecord {
    /// The accesses, in order.
    pub closed spec fn log(&self) -> Seq<Access> {
        self.record.log()
    }

    /// The bell that the waiter sleeps by.
    pub closed spec fn sleeps_by(&self) -> Bell {
        *self.bell
    }

    /// The accesses were made in addition, and nothing else has changed.
    pub open spec fn extends(&self, before: &Self, accesses: Seq<Access>) -> bool {
        &&& self.log() == before.log() + accesses
        &&& self.sleeps_by() == before.sleeps_by()
    }

    /// The record of a waiter that sleeps by the bell and has done nothing yet.
    pub fn new(bell: Arc<Bell>) -> (record: Self)
        ensures
            record.log() == Seq::<Access>::empty(),
            record.sleeps_by() == *bell,
    {
        SleepRecord { bell, record: Record::new() }
    }

    /// A handle on the bell that the waiter sleeps by.
    pub fn handle(&self) -> (handle: BellHandle)
        ensures
            handle.bell() == self.sleeps_by(),
    {
        BellHandle { bell: Arc::clone(&self.bell) }
    }

    /// Whether the bell has a flag.
    pub fn has_flag(&self) -> (has: bool)
        ensures
            has == (self.sleeps_by().flag() is Some),
    {
        self.bell.signal_needed.is_some()
    }

    /// Asks the barrier.
    pub fn ask<B: Barrier>(&mut self, requested: Sequence, barrier: &B) -> (available: Sequence)
        ensures
            barrier.observes(requested, available),
            final(self).extends(
                old(self),
                seq![barrier_gave(answers_of(barrier), requested, available)],
            ),
    {
        self.record.ask(requested, barrier)
    }

    /// Reads the shutdown marker with `Relaxed` ordering.
    pub fn read_marker(&mut self, shutdown: &CachePadded<AtomicI64>) -> (shutdown_at: Sequence)
        ensures
            loaded_relaxed(*shutdown, shutdown_at),
            final(self).extends(old(self), seq![marker_gave(shutdown, shutdown_at)]),
    {
        self.record.read_marker(shutdown)
    }

    /// Issues an `Acquire` fence.
    pub fn fence(&mut self)
        ensures
            fenced_acquire(),
            final(self).extends(old(self), seq![Access::Fence]),
    {
        self.record.fence()
    }

    /// Gives the processor a spin loop hint.
    pub fn spin(&mut self)
        ensures
            spun(),
            final(self).extends(old(self), seq![Access::Spin]),
    {
        self.record.spin()
    }

    /// Takes the lock.
    pub(crate) fn lock<'a>(&mut self, handle: &'a BellHandle) -> (guard: EpochGuard<'a>)
        requires
            handle.bell() == old(self).sleeps_by(),
        ensures
            guarded_monitor(guard) == handle.bell().monitor(),
            handle.bell().monitor().locked(guard),
            final(self).extends(old(self), seq![Access::Lock { epoch: guarded_epoch(guard) }]),
    {
        let guard = handle.bell.monitor.lock();
        self.record.log = Ghost(
            self.record.log@ + seq![Access::Lock { epoch: guarded_epoch(guard) }],
        );
        guard
    }

    /// Raises the flag, with `Release` ordering.
    pub fn announce(&mut self)
        requires
            old(self).sleeps_by().flag() is Some,
        ensures
            old(self).sleeps_by().flag() matches Some(flag) && flag_raised(flag),
            final(self).extends(old(self), seq![Access::Announcement]),
    {
        if let Some(flag) = &self.bell.signal_needed {
            raise_flag(flag);
        }
        self.record.log = Ghost(self.record.log@ + seq![Access::Announcement]);
    }

    /// Gives the lock back, sleeps until notified, and takes the lock again.
    pub(crate) fn sleep<'a>(&mut self, handle: &'a BellHandle, guard: EpochGuard<'a>) -> (woken: EpochGuard<
        'a,
    >)
        requires
            handle.bell() == old(self).sleeps_by(),
            guarded_monitor(guard) == handle.bell().monitor(),
        ensures
            guarded_monitor(woken) == handle.bell().monitor(),
            handle.bell().monitor().slept(guard, woken),
            final(self).extends(old(self), seq![Access::Sleep { now: guarded_epoch(woken) }]),
    {
        let woken = handle.bell.monitor.wait(guard);
        self.record.log = Ghost(
            self.record.log@ + seq![Access::Sleep { now: guarded_epoch(woken) }],
        );
        woken
    }
}

/// One access of a waker, and what it gave.
pub enum Ring {
    /// The flag was taken down.
    Taken {
        /// Whether it was up.
        raised: bool,
    },
    /// The lock was taken, and the counter stood at `epoch`.
    Lock {
        /// What the counter was.
        epoch: u64,
    },
    /// The counter was set.
    Count {
        /// What it was set to.
        epoch: u64,
    },
    /// The sleepers were notified.
    Notification,
}

/// What a waker does with a bell.
pub struct Ringer<'a> {
    bell: &'a Bell,
    log: Ghost<Seq<Ring>>,
}

impl<'a> Ringer<'a> {
    /// The accesses, in order.
    pub closed spec fn log(&self) -> Seq<Ring> {
        self.log@
    }

    /// The bell.
    pub closed spec fn rings(&self) -> Bell {
        *self.bell
    }

    /// The accesses were made in addition, and nothing else has changed.
    pub open spec fn extends(&self, before: &Self, accesses: Seq<Ring>) -> bool {
        &&& self.log() == before.log() + accesses
        &&& self.rings() == before.rings()
    }

    /// A waker that has done nothing yet.
    pub fn new(bell: &'a Bell) -> (ringer: Self)
        ensures
            ringer.log() == Seq::<Ring>::empty(),
            ringer.rings() == *bell,
    {
        Ringer { bell, log: Ghost(Seq::empty()) }
    }

    /// Takes the flag down, with `AcqRel` ordering. `None` stands for a bell without a flag.
    pub fn take_flag(&mut self) -> (taken: Option<bool>)
        ensures
            match old(self).rings().flag() {
                Some(flag) => {
                    &&& taken matches Some(raised) && flag_taken(flag, raised)
                    &&& final(self).extends(old(self), seq![Ring::Taken { raised: taken->0 }])
                },
                None => taken is None && *final(self) == *old(self),
            },
    {
        match &self.bell.signal_needed {
            Some(flag) => {
                let raised = take_flag(flag);
                self.log = Ghost(self.log@ + seq![Ring::Taken { raised }]);
                Some(raised)
            },
            None => None,
        }
    }

    /// Takes the lock.
    pub(crate) fn lock(&mut self) -> (guard: EpochGuard<'a>)
        ensures
            guarded_monitor(guard) == old(self).rings().monitor(),
            old(self).rings().monitor().locked(guard),
            final(self).extends(old(self), seq![Ring::Lock { epoch: guarded_epoch(guard) }]),
    {
        let guard = self.bell.monitor.lock();
        self.log = Ghost(self.log@ + seq![Ring::Lock { epoch: guarded_epoch(guard) }]);
        guard
    }

    /// Sets the counter.
    pub(crate) fn count(&mut self, guard: EpochGuard<'a>, epoch: u64) -> (written: EpochGuard<'a>)
        requires
            guarded_monitor(guard) == old(self).rings().monitor(),
        ensures
            guarded_monitor(written) == old(self).rings().monitor(),
            old(self).rings().monitor().wrote(guard, epoch, written),
            final(self).extends(old(self), seq![Ring::Count { epoch }]),
    {
        let written = self.bell.monitor.write(guard, epoch);
        self.log = Ghost(self.log@ + seq![Ring::Count { epoch }]);
        written
    }

    /// Notifies the sleepers. Whoever calls it still has the lock.
    pub(crate) fn notify(&mut self, guard: &EpochGuard<'a>)
        requires
            guarded_monitor(*guard) == old(self).rings().monitor(),
        ensures
            old(self).rings().monitor().notified(),
            final(self).extends(old(self), seq![Ring::Notification]),
    {
        self.bell.monitor.notify_all();
        self.log = Ghost(self.log@ + seq![Ring::Notification]);
    }
}

} // verus!
