//! A counter under a lock, with a condition variable to sleep on until it changes.
//!
//! A condition variable forgets a notification that finds nobody asleep. The counter does not: it
//! is raised under the lock with every notification, so that a sleeper can tell by it whether it
//! was notified.

use parking_lot::{Condvar, Mutex, MutexGuard};
use vstd::prelude::*;

verus! {

/// `parking_lot::Condvar`.
#[verifier::external_type_specification]
#[verifier::external_body]
pub struct ExCondvar(Condvar);

/// `parking_lot::RawMutex`, which `parking_lot::Mutex` is built on.
#[verifier::external_type_specification]
#[verifier::external_body]
pub struct ExRawMutex(parking_lot::RawMutex);

/// `lock_api::Mutex`, of which `parking_lot::Mutex` is an instance.
#[verifier::external_type_specification]
#[verifier::external_body]
#[verifier::reject_recursive_types(R)]
#[verifier::reject_recursive_types(T)]
pub struct ExMutex<R, T: ?Sized>(parking_lot::lock_api::Mutex<R, T>);

/// The counter, its lock and the condition variable that goes with the lock.
///
/// The condition variable is used with this lock only.
pub struct Monitor {
    epoch: Mutex<u64>,
    condvar: Condvar,
}

/// Permission to read and write the counter of a monitor: `parking_lot::MutexGuard`. The lock is
/// given back when the guard is dropped.
#[verifier::external_body]
pub struct EpochGuard<'a> {
    guard: MutexGuard<'a, u64>,
}

/// The value of the counter, which nobody but the holder of the guard can change.
pub uninterp spec fn guarded_epoch(guard: EpochGuard<'_>) -> u64;

/// The monitor whose lock the guard holds.
pub uninterp spec fn guarded_monitor(guard: EpochGuard<'_>) -> Monitor;

/// `parking_lot::Mutex::new`. The counter starts at the given value; a lock tells nothing of it,
/// since the value may have been changed in between.
#[verifier::external_body]
fn new_mutex(epoch: u64) -> Mutex<u64> {
    Mutex::new(epoch)
}

/// `parking_lot::Condvar::new`.
#[verifier::external_body]
fn new_condvar() -> Condvar {
    Condvar::new()
}

/// `parking_lot::Mutex::lock`: blocks until the lock is free, then takes it. The guard is for the
/// lock of this monitor. The caller must not hold the lock already.
#[verifier::external_body]
fn lock(monitor: &Monitor) -> (guard: EpochGuard<'_>)
    ensures
        guarded_monitor(guard) == *monitor,
{
    EpochGuard { guard: monitor.epoch.lock() }
}

/// `<parking_lot::MutexGuard as Deref>::deref`: reads the counter.
#[verifier::external_body]
fn read_epoch(guard: &EpochGuard<'_>) -> (epoch: u64)
    ensures
        epoch == guarded_epoch(*guard),
{
    *guard.guard
}

/// `<parking_lot::MutexGuard as DerefMut>::deref_mut`: writes the counter.
#[verifier::external_body]
fn write_epoch(guard: EpochGuard<'_>, epoch: u64) -> (written: EpochGuard<'_>)
    ensures
        guarded_epoch(written) == epoch,
        guarded_monitor(written) == guarded_monitor(guard),
{
    let mut guard = guard;
    *guard.guard = epoch;
    guard
}

/// `parking_lot::Condvar::wait`: gives the lock back, sleeps until the condition variable is
/// notified, and takes the lock again. The function panics if the condition variable is used with
/// two locks at a time; the guard has to be for the lock of this monitor, whose condition variable
/// serves no other lock. What the counter is afterwards depends on the other threads.
#[verifier::external_body]
fn wait<'a>(monitor: &Monitor, guard: EpochGuard<'a>) -> (woken: EpochGuard<'a>)
    requires
        guarded_monitor(guard) == *monitor,
    ensures
        guarded_monitor(woken) == *monitor,
{
    let mut guard = guard;
    monitor.condvar.wait(&mut guard.guard);
    guard
}

/// `parking_lot::Condvar::notify_all`: wakes every thread that sleeps on the condition variable
/// and gives their number, which depends on the other threads.
#[verifier::external_body]
fn notify_all(monitor: &Monitor) -> (count: usize) {
    monitor.condvar.notify_all()
}

/// The counter after `epoch`. It starts anew after the greatest value.
pub open spec fn next_epoch(epoch: u64) -> u64 {
    if epoch == u64::MAX {
        0
    } else {
        (epoch + 1) as u64
    }
}

impl Monitor {
    /// A lock of the monitor gave the guard.
    pub closed spec fn locked(&self, guard: EpochGuard<'_>) -> bool {
        call_ensures(lock, (self,), guard)
    }

    /// A thread that held the lock by `guard` slept on the monitor and came back with `woken`.
    pub closed spec fn slept(&self, guard: EpochGuard<'_>, woken: EpochGuard<'_>) -> bool {
        call_ensures(wait, (self, guard), woken)
    }

    /// The counter was set to `epoch` by the holder of `guard`, who holds `written` since.
    pub closed spec fn wrote(
        &self,
        guard: EpochGuard<'_>,
        epoch: u64,
        written: EpochGuard<'_>,
    ) -> bool {
        &&& guarded_monitor(guard) == *self
        &&& call_ensures(write_epoch, (guard, epoch), written)
    }

    /// The sleepers were notified.
    pub closed spec fn notified(&self) -> bool {
        exists|count: usize| call_ensures(notify_all, (self,), count)
    }

    /// Under a lock that was taken, the counter was raised to the one after it, and the sleepers
    /// were notified.
    pub open spec fn raised(&self) -> bool {
        &&& exists|guard: EpochGuard<'_>, written: EpochGuard<'_>|
            self.locked(guard) && #[trigger] self.wrote(
                guard,
                next_epoch(guarded_epoch(guard)),
                written,
            )
        &&& self.notified()
    }

    /// Makes a monitor with the counter at zero.
    pub fn new() -> (monitor: Monitor)
        ensures
            monitor.made(),
    {
        Monitor { epoch: new_mutex(0), condvar: new_condvar() }
    }

    /// The counter was made at zero.
    pub closed spec fn made(&self) -> bool {
        &&& call_ensures(new_mutex, (0u64,), self.epoch)
        &&& call_ensures(new_condvar, (), self.condvar)
    }

    /// Takes the lock.
    pub(crate) fn lock(&self) -> (guard: EpochGuard<'_>)
        ensures
            guarded_monitor(guard) == *self,
            self.locked(guard),
    {
        lock(self)
    }

    /// Sleeps until the monitor is notified. Meanwhile the lock is free for others.
    pub(crate) fn wait<'a>(&self, guard: EpochGuard<'a>) -> (woken: EpochGuard<'a>)
        requires
            guarded_monitor(guard) == *self,
        ensures
            guarded_monitor(woken) == *self,
            self.slept(guard, woken),
    {
        wait(self, guard)
    }

    /// Sets the counter.
    pub(crate) fn write<'a>(&self, guard: EpochGuard<'a>, epoch: u64) -> (written: EpochGuard<'a>)
        requires
            guarded_monitor(guard) == *self,
        ensures
            guarded_epoch(written) == epoch,
            guarded_monitor(written) == *self,
            self.wrote(guard, epoch, written),
    {
        write_epoch(guard, epoch)
    }

    /// Notifies the sleepers.
    pub(crate) fn notify_all(&self)
        ensures
            self.notified(),
    {
        let count = notify_all(self);
        assert(call_ensures(notify_all, (self,), count));
    }
}

impl<'a> EpochGuard<'a> {
    /// The value of the counter.
    pub(crate) fn epoch(&self) -> (epoch: u64)
        ensures
            epoch == guarded_epoch(*self),
    {
        read_epoch(self)
    }
}

} // verus!
