//! Wait strategies that put the thread to sleep.

use crate::atomics::{flag_made, flag_read, flag_taken, loaded_relaxed};
use crate::barrier::Barrier;
use crate::monitor::{guarded_epoch, guarded_monitor, next_epoch, EpochGuard};
use crate::wait_strategies::record::{
    answers_of, barrier_gave, marker_gave, Access, Answers, Bell, Ring, Ringer, SleepRecord,
};
use crate::wait_strategies::{
    outcome_observed, WaitOutcome, WaitStrategy, Waiter, WakeupNotifier, LOOK_LIMIT,
};
use crate::Sequence;
use crossbeam_utils::CachePadded;
use std::sync::atomic::AtomicI64;
use std::sync::Arc;
use vstd::prelude::*;

verus! {

/// Where in a round a blocking waiter looks.
#[derive(Debug, Clone, Copy, PartialEq, Eq, Structural)]
pub enum Place {
    /// At the start of the round.
    Round,
    /// In the spin window, with so many tries left, this one included.
    Window {
        /// The tries that are left.
        left: u32,
    },
    /// Under the lock, which was taken when the counter stood at `epoch`.
    Guarded {
        /// What the counter was.
        epoch: u64,
    },
}

/// What a blocking waiter does next. Each phase but the last is one access.
#[derive(Debug, Clone, Copy, PartialEq, Eq, Structural)]
pub enum Phase {
    /// Ask the barrier.
    AskBarrier {
        /// From where.
        place: Place,
    },
    /// Issue a fence, the barrier having given what was requested.
    Fence {
        /// From where.
        place: Place,
        /// What the barrier gave.
        upper: Sequence,
    },
    /// Read the shutdown marker, the barrier having given less than was requested.
    ReadShutdown {
        /// From where.
        place: Place,
    },
    /// Spin, a look in the spin window not having decided.
    Spin {
        /// The tries that were left, that look included.
        left: u32,
    },
    /// Take the lock.
    Lock,
    /// Under the lock, announce that a signal will be needed.
    Announce {
        /// What the counter was.
        epoch: u64,
    },
    /// Give the lock back and sleep until notified.
    Sleep {
        /// What the counter was.
        epoch: u64,
    },
    /// Report the outcome.
    Done {
        /// The outcome.
        outcome: WaitOutcome,
    },
}

/// What a blocking waiter goes by.
#[derive(Debug, Clone, Copy, PartialEq, Eq, Structural)]
pub struct Plan {
    /// The sequence that it waits for.
    pub requested: Sequence,
    /// The number of tries in the spin window.
    pub spin_tries: u32,
    /// Whether it announces that a signal will be needed before it sleeps.
    pub announces: bool,
}

/// The first phase of a wait.
pub open spec fn first_phase() -> Phase {
    Phase::AskBarrier { place: Place::Round }
}

/// The phase after the barrier gave `available`.
pub open spec fn after_barrier(plan: Plan, place: Place, available: Sequence) -> Phase {
    if available >= plan.requested {
        Phase::Fence { place, upper: available }
    } else {
        Phase::ReadShutdown { place }
    }
}

/// The phase after the fence.
pub open spec fn after_fence(upper: Sequence) -> Phase {
    Phase::Done { outcome: WaitOutcome::Available { upper } }
}

/// The phase after the shutdown marker gave `shutdown_at`.
pub open spec fn after_shutdown(plan: Plan, place: Place, shutdown_at: Sequence) -> Phase {
    if shutdown_at == plan.requested {
        Phase::Done { outcome: WaitOutcome::Shutdown }
    } else {
        match place {
            Place::Round => if plan.spin_tries > 0 {
                Phase::AskBarrier { place: Place::Window { left: plan.spin_tries } }
            } else {
                Phase::Lock
            },
            Place::Window { left } => Phase::Spin { left },
            Place::Guarded { epoch } => Phase::Sleep { epoch },
        }
    }
}

/// The phase after a spin that followed a look with so many tries left, that one included.
pub open spec fn after_spin(left: u32) -> Phase {
    if left > 1 {
        Phase::AskBarrier { place: Place::Window { left: (left - 1) as u32 } }
    } else {
        Phase::Lock
    }
}

/// The phase under the lock, which was taken when the counter stood at `epoch`.
pub open spec fn after_lock(plan: Plan, epoch: u64) -> Phase {
    if plan.announces {
        Phase::Announce { epoch }
    } else {
        Phase::AskBarrier { place: Place::Guarded { epoch } }
    }
}

/// The phase after the announcement.
pub open spec fn after_announce(epoch: u64) -> Phase {
    Phase::AskBarrier { place: Place::Guarded { epoch } }
}

/// The phase after a sleep that began with the counter at `epoch` and ended with it at `now`. As
/// long as the counter has not changed the waiter stays under the lock; otherwise a new round
/// begins.
pub open spec fn after_sleep(plan: Plan, epoch: u64, now: u64) -> Phase {
    if now == epoch {
        after_lock(plan, epoch)
    } else {
        first_phase()
    }
}

impl Plan {
    /// Computes [`after_barrier`].
    pub fn barrier_gave(&self, place: Place, available: Sequence) -> (next: Phase)
        ensures
            next == after_barrier(*self, place, available),
    {
        if available >= self.requested {
            Phase::Fence { place, upper: available }
        } else {
            Phase::ReadShutdown { place }
        }
    }

    /// Computes [`after_shutdown`].
    pub fn shutdown_gave(&self, place: Place, shutdown_at: Sequence) -> (next: Phase)
        ensures
            next == after_shutdown(*self, place, shutdown_at),
    {
        if shutdown_at == self.requested {
            return Phase::Done { outcome: WaitOutcome::Shutdown };
        }
        match place {
            Place::Round => if self.spin_tries > 0 {
                Phase::AskBarrier { place: Place::Window { left: self.spin_tries } }
            } else {
                Phase::Lock
            },
            Place::Window { left } => Phase::Spin { left },
            Place::Guarded { epoch } => Phase::Sleep { epoch },
        }
    }

    /// Computes [`after_spin`].
    pub fn spun(&self, left: u32) -> (next: Phase)
        ensures
            next == after_spin(left),
    {
        if left > 1 {
            Phase::AskBarrier { place: Place::Window { left: left - 1 } }
        } else {
            Phase::Lock
        }
    }

    /// Computes [`after_lock`].
    pub fn lock_gave(&self, epoch: u64) -> (next: Phase)
        ensures
            next == after_lock(*self, epoch),
    {
        if self.announces {
            Phase::Announce { epoch }
        } else {
            Phase::AskBarrier { place: Place::Guarded { epoch } }
        }
    }

    /// Computes [`after_sleep`].
    pub fn sleep_gave(&self, epoch: u64, now: u64) -> (next: Phase)
        ensures
            next == after_sleep(*self, epoch, now),
    {
        if now == epoch {
            self.lock_gave(epoch)
        } else {
            Phase::AskBarrier { place: Place::Round }
        }
    }
}

/// The phase after an access, or `None` if that is no access for the phase.
pub open spec fn next_phase(plan: Plan, phase: Phase, access: Access) -> Option<Phase> {
    match (phase, access) {
        (Phase::AskBarrier { place }, Access::Barrier { available, .. }) => Some(
            after_barrier(plan, place, available),
        ),
        (Phase::Fence { upper, .. }, Access::Fence) => Some(after_fence(upper)),
        (Phase::ReadShutdown { place }, Access::Marker { shutdown_at, .. }) => Some(
            after_shutdown(plan, place, shutdown_at),
        ),
        (Phase::Spin { left }, Access::Spin) => Some(after_spin(left)),
        (Phase::Lock, Access::Lock { epoch }) => Some(after_lock(plan, epoch)),
        (Phase::Announce { epoch }, Access::Announcement) => Some(after_announce(epoch)),
        (Phase::Sleep { epoch }, Access::Sleep { now }) => Some(after_sleep(plan, epoch, now)),
        _ => None,
    }
}

/// The phase after the accesses, from the first phase on, or `None` if they do not follow the
/// phases.
pub open spec fn phase_after(plan: Plan, accesses: Seq<Access>) -> Option<Phase>
    decreases accesses.len(),
{
    if accesses.len() == 0 {
        Some(first_phase())
    } else {
        match phase_after(plan, accesses.drop_last()) {
            Some(phase) => next_phase(plan, phase, accesses.last()),
            None => None,
        }
    }
}

/// How many of the accesses complete a look that the barrier did not decide.
pub open spec fn looks_completed(accesses: Seq<Access>) -> nat
    decreases accesses.len(),
{
    if accesses.len() == 0 {
        0
    } else {
        looks_completed(accesses.drop_last()) + if accesses.last() is Marker {
            1nat
        } else {
            0nat
        }
    }
}

/// If the access is one of a barrier or of a marker, it is one of this barrier, for this sequence,
/// or of this marker.
pub open spec fn is_access_to(
    access: Access,
    requested: Sequence,
    answers: Answers,
    shutdown: &CachePadded<AtomicI64>,
) -> bool {
    match access {
        Access::Barrier { available, .. } => {
            &&& access == barrier_gave(answers, requested, available)
            &&& answers(requested, available)
        },
        Access::Marker { shutdown_at, .. } => {
            &&& access == marker_gave(shutdown, shutdown_at)
            &&& loaded_relaxed(*shutdown, shutdown_at)
        },
        _ => true,
    }
}

/// The accesses of a blocking wait, in order. They follow the phases, and the last one led to the
/// outcome. A wait times out only when as many looks as the limit allows did not decide.
pub open spec fn blocked(
    plan: Plan,
    answers: Answers,
    shutdown: &CachePadded<AtomicI64>,
    accesses: Seq<Access>,
    outcome: WaitOutcome,
) -> bool {
    &&& forall|k: int|
        0 <= k < accesses.len() ==> is_access_to(
            #[trigger] accesses[k],
            plan.requested,
            answers,
            shutdown,
        )
    &&& match phase_after(plan, accesses) {
        Some(Phase::Done { outcome: decided }) => outcome == decided,
        Some(_) => looks_completed(accesses) == LOOK_LIMIT && outcome is Timeout,
        None => false,
    }
}

/// The record of a blocking waiter was extended by one wait, and by nothing else. The waiter
/// announces that it may sleep if its bell has a flag for that.
pub open spec fn blocking_recorded(
    before: &SleepRecord,
    after: &SleepRecord,
    spin_tries: u32,
    requested: Sequence,
    answers: Answers,
    shutdown: &CachePadded<AtomicI64>,
    outcome: WaitOutcome,
) -> bool {
    let announces = before.sleeps_by().flag() is Some;
    exists|accesses: Seq<Access>|
        {
            &&& after.extends(before, accesses)
            &&& #[trigger] blocked(
                Plan { requested, spin_tries, announces },
                answers,
                shutdown,
                accesses,
                outcome,
            )
        }
}

/// Whether the lock is held in the phase.
pub open spec fn holds_lock(phase: Phase) -> bool {
    match phase {
        Phase::AskBarrier { place: Place::Guarded { .. } } => true,
        Phase::Fence { place: Place::Guarded { .. }, .. } => true,
        Phase::ReadShutdown { place: Place::Guarded { .. } } => true,
        Phase::Announce { .. } => true,
        Phase::Sleep { .. } => true,
        _ => false,
    }
}

/// How many phases can still pass before the next look is complete.
spec fn phases_to_go(phase: Phase) -> nat {
    match phase {
        Phase::Spin { .. } => 6,
        Phase::Sleep { .. } => 5,
        Phase::Lock => 4,
        Phase::Announce { .. } => 3,
        Phase::AskBarrier { .. } => 2,
        Phase::Fence { .. } => 1,
        Phase::ReadShutdown { .. } => 1,
        Phase::Done { .. } => 0,
    }
}

/// What a further access does to what is said of the accesses before it.
proof fn lemma_access(plan: Plan, accesses: Seq<Access>, access: Access)
    requires
        phase_after(plan, accesses) is Some,
    ensures
        phase_after(plan, accesses + seq![access]) == next_phase(
            plan,
            phase_after(plan, accesses)->0,
            access,
        ),
        looks_completed(accesses + seq![access]) == looks_completed(accesses)
            + if access is Marker {
            1nat
        } else {
            0nat
        },
{
    assert((accesses + seq![access]).drop_last() == accesses);
}

/// Waits by the phases above. Looks at the start of each round and in the spin window without the
/// lock, then once more under the lock, and sleeps if that does not decide either.
fn wait_blocking<B: Barrier>(
    record: &mut SleepRecord,
    spin_tries: u32,
    requested: Sequence,
    barrier: &B,
    shutdown: &CachePadded<AtomicI64>,
) -> (outcome: WaitOutcome)
    ensures
        outcome_observed(requested, barrier, shutdown, outcome),
        blocking_recorded(
            old(record),
            final(record),
            spin_tries,
            requested,
            answers_of(barrier),
            shutdown,
            outcome,
        ),
{
    let plan = Plan { requested, spin_tries, announces: record.has_flag() };
    let handle = record.handle();
    let ghost answers = answers_of(barrier);
    let ghost mut accesses = Seq::<Access>::empty();
    let mut looks_left: u64 = LOOK_LIMIT;
    let mut guard: Option<EpochGuard<'_>> = None;
    let mut phase = Phase::AskBarrier { place: Place::Round };
    assert(record.log() == old(record).log() + accesses);
    while looks_left > 0
        invariant
            answers == answers_of(barrier),
            plan == (Plan {
                requested,
                spin_tries,
                announces: old(record).sleeps_by().flag() is Some,
            }),
            handle.bell() == old(record).sleeps_by(),
            record.extends(old(record), accesses),
            looks_completed(accesses) + looks_left == LOOK_LIMIT,
            phase !is Done,
            phase_after(plan, accesses) == Some(phase),
            forall|k: int|
                0 <= k < accesses.len() ==> is_access_to(
                    #[trigger] accesses[k],
                    requested,
                    answers,
                    shutdown,
                ),
            phase is Announce ==> plan.announces,
            phase matches Phase::Fence { upper, .. } ==> upper >= requested && barrier.observes(
                requested,
                upper,
            ),
            holds_lock(phase) <==> guard is Some,
            guard matches Some(g) ==> guarded_monitor(g) == handle.bell().monitor(),
        decreases looks_left, phases_to_go(phase),
    {
        match phase {
            Phase::AskBarrier { place } => {
                let available = record.ask(requested, barrier);
                phase = plan.barrier_gave(place, available);
                proof {
                    let access = barrier_gave(answers, requested, available);
                    lemma_access(plan, accesses, access);
                    accesses = accesses + seq![access];
                    assert(record.log() == old(record).log() + accesses);
                }
            },
            Phase::Fence { place, upper } => {
                record.fence();
                let outcome = WaitOutcome::Available { upper };
                proof {
                    lemma_access(plan, accesses, Access::Fence);
                    accesses = accesses + seq![Access::Fence];
                    assert(record.log() == old(record).log() + accesses);
                    assert(blocked(plan, answers, shutdown, accesses, outcome));
                }
                return outcome;
            },
            Phase::ReadShutdown { place } => {
                let shutdown_at = record.read_marker(shutdown);
                phase = plan.shutdown_gave(place, shutdown_at);
                proof {
                    let access = marker_gave(shutdown, shutdown_at);
                    lemma_access(plan, accesses, access);
                    accesses = accesses + seq![access];
                    assert(record.log() == old(record).log() + accesses);
                }
                if let Phase::Done { outcome } = phase {
                    assert(blocked(plan, answers, shutdown, accesses, outcome));
                    return outcome;
                }
                looks_left -= 1;
            },
            Phase::Spin { left } => {
                record.spin();
                phase = plan.spun(left);
                proof {
                    lemma_access(plan, accesses, Access::Spin);
                    accesses = accesses + seq![Access::Spin];
                    assert(record.log() == old(record).log() + accesses);
                }
            },
            Phase::Lock => {
                let taken = record.lock(&handle);
                let epoch = taken.epoch();
                guard = Some(taken);
                phase = plan.lock_gave(epoch);
                proof {
                    lemma_access(plan, accesses, Access::Lock { epoch });
                    accesses = accesses + seq![Access::Lock { epoch }];
                    assert(record.log() == old(record).log() + accesses);
                }
            },
            Phase::Announce { epoch } => {
                record.announce();
                phase = Phase::AskBarrier { place: Place::Guarded { epoch } };
                proof {
                    lemma_access(plan, accesses, Access::Announcement);
                    accesses = accesses + seq![Access::Announcement];
                    assert(record.log() == old(record).log() + accesses);
                }
            },
            Phase::Sleep { epoch } => {
                if let Some(held) = guard {
                    let woken = record.sleep(&handle, held);
                    let now = woken.epoch();
                    phase = plan.sleep_gave(epoch, now);
                    guard = if now == epoch {
                        Some(woken)
                    } else {
                        None
                    };
                    proof {
                        lemma_access(plan, accesses, Access::Sleep { now });
                        accesses = accesses + seq![Access::Sleep { now }];
                        assert(record.log() == old(record).log() + accesses);
                    }
                }
            },
            Phase::Done { outcome } => {
                return outcome;
            },
        }
    }
    assert(blocked(plan, answers, shutdown, accesses, WaitOutcome::Timeout));
    WaitOutcome::Timeout
}

/// What a wake does: where there is a flag it is taken down, and the wake ends there if it was down
/// already. Else the lock is taken, the counter raised to the one after it, and the sleepers are
/// notified, each once and in this order.
pub open spec fn rung(has_flag: bool, log: Seq<Ring>) -> bool {
    if has_flag && log == seq![Ring::Taken { raised: false }] {
        true
    } else {
        exists|epoch: u64|
            #![trigger next_epoch(epoch)]
            log == (if has_flag {
                seq![Ring::Taken { raised: true }]
            } else {
                Seq::empty()
            }) + seq![
                Ring::Lock { epoch },
                Ring::Count { epoch: next_epoch(epoch) },
                Ring::Notification,
            ]
    }
}

/// The bell was rung: its flag, if it has one, was taken down, and if that was up, or there is none,
/// the counter of its monitor was raised and the sleepers were notified.
pub open spec fn rang(bell: Bell) -> bool {
    match bell.flag() {
        Some(flag) => exists|raised: bool| #[trigger]
            flag_taken(flag, raised) && (raised ==> bell.monitor().raised()),
        None => bell.monitor().raised(),
    }
}

/// Wakes whoever may sleep by the bell.
pub fn ring(ringer: &mut Ringer<'_>)
    ensures
        final(ringer).rings() == old(ringer).rings(),
        exists|log: Seq<Ring>|
            final(ringer).log() == old(ringer).log() + log && #[trigger] rung(
                old(ringer).rings().flag() is Some,
                log,
            ),
        rang(old(ringer).rings()),
{
    let ghost mut log = Seq::<Ring>::empty();
    let ghost bell = ringer.rings();
    let taken = ringer.take_flag();
    if let Some(raised) = taken {
        assert(bell.flag() matches Some(flag) && flag_taken(flag, raised));
        proof {
            log = seq![Ring::Taken { raised }];
        }
        if !raised {
            assert(rung(true, log));
            return;
        }
    }
    let guard = ringer.lock();
    let epoch = guard.epoch();
    let ghost held = guard;
    let written = ringer.count(guard, epoch.wrapping_add(1));
    ringer.notify(&written);
    proof {
        assert(bell.monitor().wrote(held, next_epoch(guarded_epoch(held)), written));
        let raised = seq![
            Ring::Lock { epoch },
            Ring::Count { epoch: next_epoch(epoch) },
            Ring::Notification,
        ];
        log = log + raised;
        assert(ringer.log() == old(ringer).log() + log);
        assert(rung(bell.flag() is Some, log));
    }
}

/// Blocking wait strategy using a single condition variable shared among all waiters.
///
/// Waiters block on the condition variable and are woken by producers, and by consumers when they
/// advance. A clone shares the condition variable.
pub struct BlockingWaitStrategy {
    bell: Arc<Bell>,
    spin_tries: u32,
}

impl BlockingWaitStrategy {
    /// What the waiters of the strategy sleep by.
    pub closed spec fn sleeps_by(&self) -> Bell {
        *self.bell
    }

    /// The number of tries in the spin window.
    pub closed spec fn tries(&self) -> u32 {
        self.spin_tries
    }

    /// Configure a short busy-spin window before blocking on the condvar.
    ///
    /// This can reduce lock/park/unpark overhead under sustained high load, while still allowing
    /// threads to sleep when the system is mostly idle.
    pub fn with_spin_tries(self, spin_tries: u32) -> (strategy: Self)
        ensures
            strategy.sleeps_by() == self.sleeps_by(),
            strategy.tries() == spin_tries,
    {
        BlockingWaitStrategy { bell: self.bell, spin_tries }
    }
}

impl Default for BlockingWaitStrategy {
    /// A strategy without a spin window.
    fn default() -> (strategy: Self)
        ensures
            strategy.sleeps_by().monitor().made(),
            strategy.sleeps_by().flag() is None,
            strategy.tries() == 0,
    {
        BlockingWaitStrategy { bell: Arc::new(Bell::new()), spin_tries: 0 }
    }
}

impl Clone for BlockingWaitStrategy {
    fn clone(&self) -> (strategy: Self)
        ensures
            strategy.sleeps_by() == self.sleeps_by(),
            strategy.tries() == self.tries(),
    {
        BlockingWaitStrategy { bell: Arc::clone(&self.bell), spin_tries: self.spin_tries }
    }
}

/// Per-consumer waiter for [`BlockingWaitStrategy`].
pub struct BlockingWaiter {
    spin_tries: u32,
    record: SleepRecord,
}

impl BlockingWaiter {
    /// What the waiter sleeps by.
    pub open spec fn sleeps_by(&self) -> Bell {
        self.record().sleeps_by()
    }

    /// The number of tries in the spin window.
    pub closed spec fn tries(&self) -> u32 {
        self.spin_tries
    }

    /// What the waiter did so far.
    pub closed spec fn record(&self) -> SleepRecord {
        self.record
    }
}

/// Producer/consumer wake handle for [`BlockingWaitStrategy`].
pub struct BlockingNotifier {
    bell: Arc<Bell>,
}

impl BlockingNotifier {
    /// What those sleep by whom the notifier wakes.
    pub closed spec fn rings(&self) -> Bell {
        *self.bell
    }
}

impl Clone for BlockingNotifier {
    fn clone(&self) -> (notifier: Self)
        ensures
            notifier.rings() == self.rings(),
    {
        BlockingNotifier { bell: Arc::clone(&self.bell) }
    }
}

impl WakeupNotifier for BlockingNotifier {
    /// Raises the counter under the lock and notifies all waiters.
    fn wake(&self)
        ensures
            rang(self.rings()),
            exists|ringer: &mut Ringer<'_>|
                {
                    &&& ringer.rings() == self.rings()
                    &&& ringer.log() == Seq::<Ring>::empty()
                    &&& #[trigger] call_ensures(ring, (ringer,), ())
                },
    {
        let mut ringer = Ringer::new(&self.bell);
        ring(&mut ringer);
    }
}

impl WaitStrategy for BlockingWaitStrategy {
    type Waiter = BlockingWaiter;

    type Notifier = BlockingNotifier;

    fn new_waiter(&self) -> (waiter: Self::Waiter)
        ensures
            waiter.sleeps_by() == self.sleeps_by(),
            waiter.tries() == self.tries(),
            waiter.record().log() == Seq::<Access>::empty(),
    {
        BlockingWaiter {
            spin_tries: self.spin_tries,
            record: SleepRecord::new(Arc::clone(&self.bell)),
        }
    }

    fn notifier(&self) -> (notifier: Self::Notifier)
        ensures
            notifier.rings() == self.sleeps_by(),
    {
        BlockingNotifier { bell: Arc::clone(&self.bell) }
    }
}

impl Waiter for BlockingWaiter {
    open spec fn reports(
        &self,
        requested: Sequence,
        answers: Answers,
        shutdown: &CachePadded<AtomicI64>,
        outcome: WaitOutcome,
        after: &Self,
    ) -> bool {
        &&& after.tries() == self.tries()
        &&& blocking_recorded(
            &self.record(),
            &after.record(),
            self.tries(),
            requested,
            answers,
            shutdown,
            outcome,
        )
    }

    /// Looks, spins for a while, and then sleeps until it is woken, over and over.
    fn wait_for<B: Barrier>(
        &mut self,
        requested: Sequence,
        barrier: &B,
        shutdown: &CachePadded<AtomicI64>,
    ) -> (outcome: WaitOutcome) {
        wait_blocking(&mut self.record, self.spin_tries, requested, barrier, shutdown)
    }
}

/// "Lite" blocking wait strategy.
///
/// Compared to [`BlockingWaitStrategy`], a waiter announces in a flag that it may sleep, and
/// `wake()` leaves the lock alone as long as nobody did.
pub struct LiteBlockingWaitStrategy {
    bell: Arc<Bell>,
    spin_tries: u32,
}

impl LiteBlockingWaitStrategy {
    /// What the waiters of the strategy sleep by.
    pub closed spec fn sleeps_by(&self) -> Bell {
        *self.bell
    }

    /// The number of tries in the spin window.
    pub closed spec fn tries(&self) -> u32 {
        self.spin_tries
    }

    /// Configure a short busy-spin window before blocking on the condvar.
    ///
    /// This can reduce lock/park/unpark overhead under sustained high load, while still allowing
    /// threads to sleep when the system is mostly idle.
    pub fn with_spin_tries(self, spin_tries: u32) -> (strategy: Self)
        ensures
            strategy.sleeps_by() == self.sleeps_by(),
            strategy.tries() == spin_tries,
    {
        LiteBlockingWaitStrategy { bell: self.bell, spin_tries }
    }

    /// Whether a waiter has announced that it may sleep since the last signal.
    pub fn signal_needed(&self) -> (needed: bool)
        ensures
            match self.sleeps_by().flag() {
                Some(flag) => flag_read(flag, needed),
                None => !needed,
            },
    {
        self.bell.signal_needed()
    }
}

impl Default for LiteBlockingWaitStrategy {
    /// A strategy without a spin window, with the flag down.
    fn default() -> (strategy: Self)
        ensures
            strategy.sleeps_by().monitor().made(),
            strategy.sleeps_by().flag() matches Some(flag) && flag_made(flag, false),
            strategy.tries() == 0,
    {
        LiteBlockingWaitStrategy { bell: Arc::new(Bell::with_flag()), spin_tries: 0 }
    }
}

impl Clone for LiteBlockingWaitStrategy {
    fn clone(&self) -> (strategy: Self)
        ensures
            strategy.sleeps_by() == self.sleeps_by(),
            strategy.tries() == self.tries(),
    {
        LiteBlockingWaitStrategy { bell: Arc::clone(&self.bell), spin_tries: self.spin_tries }
    }
}

/// Per-consumer waiter for [`LiteBlockingWaitStrategy`].
pub struct LiteBlockingWaiter {
    spin_tries: u32,
    record: SleepRecord,
}

impl LiteBlockingWaiter {
    /// What the waiter sleeps by.
    pub open spec fn sleeps_by(&self) -> Bell {
        self.record().sleeps_by()
    }

    /// The number of tries in the spin window.
    pub closed spec fn tries(&self) -> u32 {
        self.spin_tries
    }

    /// What the waiter did so far.
    pub closed spec fn record(&self) -> SleepRecord {
        self.record
    }
}

/// Producer/consumer wake handle for [`LiteBlockingWaitStrategy`].
pub struct LiteBlockingNotifier {
    bell: Arc<Bell>,
}

impl LiteBlockingNotifier {
    /// What those sleep by whom the notifier wakes.
    pub closed spec fn rings(&self) -> Bell {
        *self.bell
    }
}

impl Clone for LiteBlockingNotifier {
    fn clone(&self) -> (notifier: Self)
        ensures
            notifier.rings() == self.rings(),
    {
        LiteBlockingNotifier { bell: Arc::clone(&self.bell) }
    }
}

impl WakeupNotifier for LiteBlockingNotifier {
    /// Takes the flag down. If it was up, raises the counter under the lock and notifies all
    /// waiters.
    ///
    /// The flag, not the number of sleepers, decides: a waiter that is about to sleep is not
    /// asleep yet, and a signal must not pass it by.
    fn wake(&self)
        ensures
            rang(self.rings()),
            exists|ringer: &mut Ringer<'_>|
                {
                    &&& ringer.rings() == self.rings()
                    &&& ringer.log() == Seq::<Ring>::empty()
                    &&& #[trigger] call_ensures(ring, (ringer,), ())
                },
    {
        let mut ringer = Ringer::new(&self.bell);
        ring(&mut ringer);
    }
}

impl WaitStrategy for LiteBlockingWaitStrategy {
    type Waiter = LiteBlockingWaiter;

    type Notifier = LiteBlockingNotifier;

    fn new_waiter(&self) -> (waiter: Self::Waiter)
        ensures
            waiter.sleeps_by() == self.sleeps_by(),
            waiter.tries() == self.tries(),
            waiter.record().log() == Seq::<Access>::empty(),
    {
        LiteBlockingWaiter {
            spin_tries: self.spin_tries,
            record: SleepRecord::new(Arc::clone(&self.bell)),
        }
    }

    fn notifier(&self) -> (notifier: Self::Notifier)
        ensures
            notifier.rings() == self.sleeps_by(),
    {
        LiteBlockingNotifier { bell: Arc::clone(&self.bell) }
    }
}

impl Waiter for LiteBlockingWaiter {
    open spec fn reports(
        &self,
        requested: Sequence,
        answers: Answers,
        shutdown: &CachePadded<AtomicI64>,
        outcome: WaitOutcome,
        after: &Self,
    ) -> bool {
        &&& after.tries() == self.tries()
        &&& blocking_recorded(
            &self.record(),
            &after.record(),
            self.tries(),
            requested,
            answers,
            shutdown,
            outcome,
        )
    }

    /// Looks, spins for a while, announces under the lock that it may sleep, looks again, and then
    /// sleeps until it is woken, over and over.
    fn wait_for<B: Barrier>(
        &mut self,
        requested: Sequence,
        barrier: &B,
        shutdown: &CachePadded<AtomicI64>,
    ) -> (outcome: WaitOutcome) {
        wait_blocking(&mut self.record, self.spin_tries, requested, barrier, shutdown)
    }
}

} // verus!
