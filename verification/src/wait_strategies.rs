//! Strategies for waiting until an event is published.
//!
//! The lowest latency is that of [`BusySpin`]. The other strategies take less CPU time and power
//! and have a higher latency.

pub mod blocking;
pub mod record;

use crate::atomics::{fenced_acquire, loaded, loaded_relaxed};
use crate::barrier::Barrier;
use crate::wait_strategies::record::{
    answers_of, barrier_gave, marker_gave, Access, Answers, Record,
};
use crate::Sequence;
use crossbeam_utils::CachePadded;
use std::sync::atomic::AtomicI64;
use vstd::prelude::*;

verus! {

/// Outcome of waiting for availability.
#[derive(Debug, Clone, Copy, PartialEq, Eq, Structural)]
pub enum WaitOutcome {
    /// Highest contiguous sequence available (inclusive).
    Available {
        /// Highest available sequence (inclusive).
        upper: Sequence,
    },
    /// The disruptor is shutting down.
    Shutdown,
    /// The wait timed out without progress.
    Timeout,
}

/// Handle for nudging blocked waiters after publication.
pub trait WakeupNotifier: Send + Sync {
    /// The numbers of the [effects](crate::effects) that a wake can have. A notifier that tells
    /// nothing of its effects may leave it out.
    open spec fn effects(&self) -> Set<int> {
        Set::full()
    }

    /// Hint waiters that new data may be available.
    fn wake(&self)
        opens_invariants self.effects()
    ;
}

/// The notifier was told to wake its waiters.
pub open spec fn woken<N: WakeupNotifier>(notifier: &N) -> bool {
    call_ensures(N::wake, (notifier,), ())
}

/// No-op wakeup notifier for spin/yield strategies.
#[derive(Clone, Copy, Default)]
pub struct NoopWakeupNotifier;

impl WakeupNotifier for NoopWakeupNotifier {
    open spec fn effects(&self) -> Set<int> {
        Set::empty()
    }

    fn wake(&self) {
    }
}

/// What one look at the barrier and at the shutdown marker decides for a waiter that asks for
/// `requested`. An available sequence goes before a shutdown; `None` stands for "look again".
pub open spec fn wait_decision(
    requested: Sequence,
    available: Sequence,
    shutdown_at: Sequence,
) -> Option<WaitOutcome> {
    if available >= requested {
        Some(WaitOutcome::Available { upper: available })
    } else if shutdown_at == requested {
        Some(WaitOutcome::Shutdown)
    } else {
        None
    }
}

/// Decides a wait from what was read of the barrier and of the shutdown marker.
pub fn decide_wait(requested: Sequence, available: Sequence, shutdown_at: Sequence) -> (decision:
    Option<WaitOutcome>)
    ensures
        decision == wait_decision(requested, available, shutdown_at),
{
    if available >= requested {
        Some(WaitOutcome::Available { upper: available })
    } else if shutdown_at == requested {
        Some(WaitOutcome::Shutdown)
    } else {
        None
    }
}

/// One look of a waiter.
pub struct Look {
    /// What the barrier gave.
    pub available: Sequence,
    /// What the shutdown marker held. It is read only where the barrier did not decide.
    pub shutdown_at: Sequence,
}

impl Look {
    /// What the look decides.
    pub open spec fn decision(self, requested: Sequence) -> Option<WaitOutcome> {
        wait_decision(requested, self.available, self.shutdown_at)
    }

    /// The barrier was asked, and the marker loaded if need be, and both gave what the look
    /// says.
    pub open spec fn made(
        self,
        requested: Sequence,
        answers: Answers,
        shutdown: &CachePadded<AtomicI64>,
    ) -> bool {
        &&& answers(requested, self.available)
        &&& self.available < requested ==> loaded_relaxed(*shutdown, self.shutdown_at)
    }
}

/// The accesses of one look. The barrier is asked; if it decides a fence follows, and else the
/// shutdown marker is read.
pub open spec fn look_accesses(
    requested: Sequence,
    answers: Answers,
    shutdown: &CachePadded<AtomicI64>,
    look: Look,
) -> Seq<Access> {
    if look.available >= requested {
        seq![barrier_gave(answers, requested, look.available), Access::Fence]
    } else {
        seq![
            barrier_gave(answers, requested, look.available),
            marker_gave(shutdown, look.shutdown_at),
        ]
    }
}

/// Looks once at the barrier and, where that does not decide, at the shutdown marker. Issues an
/// `Acquire` fence if the requested sequence is available.
pub fn look<B: Barrier>(
    record: &mut Record,
    requested: Sequence,
    barrier: &B,
    shutdown: &CachePadded<AtomicI64>,
) -> (decision: Option<WaitOutcome>)
    ensures
        exists|look: Look|
            {
                &&& #[trigger] look.made(requested, answers_of(barrier), shutdown)
                &&& decision == look.decision(requested)
                &&& final(record).extends(
                    old(record),
                    look_accesses(requested, answers_of(barrier), shutdown, look),
                )
            },
        decision matches Some(WaitOutcome::Available { .. }) ==> fenced_acquire(),
{
    let available = record.ask(requested, barrier);
    if available >= requested {
        record.fence();
        proof {
            let look = Look { available, shutdown_at: 0 };
            assert(look.made(requested, answers_of(barrier), shutdown));
            assert(record.log() == old(record).log() + look_accesses(
                requested,
                answers_of(barrier),
                shutdown,
                look,
            ));
        }
        return Some(WaitOutcome::Available { upper: available });
    }
    let shutdown_at = record.read_marker(shutdown);
    proof {
        let look = Look { available, shutdown_at };
        assert(look.made(requested, answers_of(barrier), shutdown));
        assert(record.log() == old(record).log() + look_accesses(
            requested,
            answers_of(barrier),
            shutdown,
            look,
        ));
    }
    decide_wait(requested, available, shutdown_at)
}

/// How often a waiter of the library looks before it gives up with
/// [`WaitOutcome::Timeout`]. At a look per nanosecond that is after five hundred years.
pub const LOOK_LIMIT: u64 = 0xffff_ffff_ffff_ffff;

/// The looks of one wait, in order: none but the last decides, and the outcome is what the last
/// one decides. A wait times out only when as many looks as the limit allows did not decide.
pub open spec fn waited(
    requested: Sequence,
    answers: Answers,
    shutdown: &CachePadded<AtomicI64>,
    looks: Seq<Look>,
    outcome: WaitOutcome,
) -> bool {
    &&& 0 < looks.len() <= LOOK_LIMIT
    &&& forall|i: int| 0 <= i < looks.len() ==> #[trigger] looks[i].made(requested, answers, shutdown)
    &&& forall|i: int|
        0 <= i < looks.len() - 1 ==> (#[trigger] looks[i]).decision(requested) is None
    &&& match looks.last().decision(requested) {
        Some(decided) => outcome == decided,
        None => looks.len() == LOOK_LIMIT && outcome is Timeout,
    }
}

/// What a waiter that does not sleep does after a look that did not decide.
pub enum Pausing {
    /// Nothing.
    Never,
    /// A spin loop hint.
    Spins,
    /// A spin loop hint as long as the budget lasts, and a yield after that.
    SpinsThenYields,
}

/// What follows a look that did not decide, where so many did not decide before it.
pub open spec fn pause_after(pausing: Pausing, in_vain_before: int) -> Seq<Access> {
    match pausing {
        Pausing::Never => Seq::empty(),
        Pausing::Spins => seq![Access::Spin],
        Pausing::SpinsThenYields => if in_vain_before < SPIN_TRIES {
            seq![Access::Spin]
        } else {
            seq![Access::Yield]
        },
    }
}

/// All that a waiter did that made these looks, in order: each look, and what follows it if it did
/// not decide.
pub open spec fn looks_and_pauses(
    pausing: Pausing,
    requested: Sequence,
    answers: Answers,
    shutdown: &CachePadded<AtomicI64>,
    looks: Seq<Look>,
) -> Seq<Access>
    decreases looks.len(),
{
    if looks.len() == 0 {
        Seq::empty()
    } else {
        let before = looks_and_pauses(pausing, requested, answers, shutdown, looks.drop_last());
        let look = look_accesses(requested, answers, shutdown, looks.last());
        let pause = if looks.last().decision(requested) is Some {
            Seq::empty()
        } else {
            pause_after(pausing, looks.len() - 1)
        };
        before + look + pause
    }
}

/// The record of a waiter that does not sleep was extended by one wait: by its looks, none of which
/// but the last decides, and by what follows each of them, and by nothing else.
pub open spec fn wait_recorded(
    pausing: Pausing,
    before: &Record,
    after: &Record,
    requested: Sequence,
    answers: Answers,
    shutdown: &CachePadded<AtomicI64>,
    looks: Seq<Look>,
    outcome: WaitOutcome,
) -> bool {
    &&& waited(requested, answers, shutdown, looks, outcome)
    &&& after.extends(
        before,
        looks_and_pauses(pausing, requested, answers, shutdown, looks),
    )
}

/// One more look, and what follows it.
proof fn lemma_look_follows(
    pausing: Pausing,
    requested: Sequence,
    answers: Answers,
    shutdown: &CachePadded<AtomicI64>,
    looks: Seq<Look>,
    look: Look,
)
    ensures
        looks_and_pauses(pausing, requested, answers, shutdown, looks.push(look))
            == looks_and_pauses(pausing, requested, answers, shutdown, looks) + look_accesses(
            requested,
            answers,
            shutdown,
            look,
        ) + if look.decision(requested) is Some {
            Seq::empty()
        } else {
            pause_after(pausing, looks.len() as int)
        },
{
    assert(looks.push(look).drop_last() == looks);
}

/// What a waiter may report. An available sequence was observed at the barrier, is at least the
/// requested one and comes with an `Acquire` fence; a shutdown was observed at the marker.
pub open spec fn outcome_observed<B: Barrier>(
    requested: Sequence,
    barrier: &B,
    shutdown: &CachePadded<AtomicI64>,
    outcome: WaitOutcome,
) -> bool {
    match outcome {
        WaitOutcome::Available { upper } => {
            &&& upper >= requested
            &&& barrier.observes(requested, upper)
            &&& fenced_acquire()
        },
        WaitOutcome::Shutdown => loaded(*shutdown, requested),
        WaitOutcome::Timeout => true,
    }
}

/// Per-consumer stateful waiter; owns spin/backoff/park bookkeeping.
pub trait Waiter: Send {
    /// Whether a wait for `requested` can end with the outcome and turn the waiter into `after`. Of
    /// the library's waiters this says what was recorded of the wait. A waiter that promises nothing
    /// beyond its outcome may leave it out.
    open spec fn reports(
        &self,
        requested: Sequence,
        answers: Answers,
        shutdown: &CachePadded<AtomicI64>,
        outcome: WaitOutcome,
        after: &Self,
    ) -> bool {
        true
    }

    /// The numbers of the [effects](crate::effects) that a wait can have. A waiter that tells nothing
    /// of its effects may leave it out.
    open spec fn effects(&self) -> Set<int> {
        Set::full()
    }

    /// Return highest contiguous available >= requested, or a terminal/alert condition.
    ///
    /// Implementations must issue an `Acquire` fence before returning `Available`.
    fn wait_for<B: Barrier>(
        &mut self,
        requested: Sequence,
        barrier: &B,
        shutdown: &CachePadded<AtomicI64>,
    ) -> (outcome: WaitOutcome)
        ensures
            outcome_observed(requested, barrier, shutdown, outcome),
            old(self).reports(requested, answers_of(barrier), shutdown, outcome, final(self)),
        opens_invariants old(self).effects()
    ;
}

/// Public wait strategy; cloneable so producers can hold a copy for signaling.
pub trait WaitStrategy: Send + Sync + Clone + 'static {
    /// Per-consumer waiter type that holds any mutable state.
    type Waiter: Waiter;

    /// Handle type used by producers to wake blocked waiters.
    type Notifier: WakeupNotifier + Clone + Send + Sync + 'static;

    /// Create a new waiter instance for a consumer thread.
    fn new_waiter(&self) -> Self::Waiter;

    /// Called during build to hand producers a wakeup handle.
    fn notifier(&self) -> Self::Notifier;
}

/// The looks that were made so far did not decide, and more may follow.
pub(crate) open spec fn undecided(
    requested: Sequence,
    answers: Answers,
    shutdown: &CachePadded<AtomicI64>,
    looks: Seq<Look>,
) -> bool {
    forall|i: int|
        0 <= i < looks.len() ==> (#[trigger] looks[i]).made(requested, answers, shutdown)
            && looks[i].decision(requested) is None
}

/// What a waiter that does not sleep does between two looks.
pub trait Pauser {
    /// What stays the same over all pauses.
    type Fixed;

    /// What stays the same over all pauses.
    spec fn fixed(&self) -> Self::Fixed;

    /// Which kind of waiter pauses.
    spec fn pausing(&self) -> Pausing;

    /// So many pauses were made in this wait.
    spec fn has_paused(&self, times: int) -> bool;

    /// Makes the pause that follows on those that were made.
    fn pause(&mut self, record: &mut Record)
        ensures
            final(self).fixed() == old(self).fixed(),
            final(self).pausing() == old(self).pausing(),
            forall|times: int| #[trigger]
                old(self).has_paused(times) ==> {
                    &&& final(self).has_paused(times + 1)
                    &&& final(record).extends(
                        old(record),
                        pause_after(old(self).pausing(), times),
                    )
                },
    ;
}

/// How many of the looks of a wait did not decide.
pub open spec fn looks_in_vain(looks: Seq<Look>, outcome: WaitOutcome) -> int {
    if outcome is Timeout {
        looks.len() as int
    } else {
        looks.len() - 1
    }
}

/// Looks again and again, with a pause after each look that does not decide. Beside the outcome
/// stand the looks that were made.
pub fn look_until_decided<P: Pauser, B: Barrier>(
    record: &mut Record,
    pauser: &mut P,
    requested: Sequence,
    barrier: &B,
    shutdown: &CachePadded<AtomicI64>,
) -> (result: (WaitOutcome, Ghost<Seq<Look>>))
    requires
        old(pauser).has_paused(0),
    ensures
        outcome_observed(requested, barrier, shutdown, result.0),
        final(pauser).fixed() == old(pauser).fixed(),
        final(pauser).has_paused(looks_in_vain(result.1@, result.0)),
        wait_recorded(
            old(pauser).pausing(),
            old(record),
            final(record),
            requested,
            answers_of(barrier),
            shutdown,
            result.1@,
            result.0,
        ),
{
    let ghost answers = answers_of(barrier);
    let ghost pausing = pauser.pausing();
    let ghost mut looks = Seq::<Look>::empty();
    let mut looks_left: u64 = LOOK_LIMIT;
    assert(record.log() == old(record).log() + looks_and_pauses(
        pausing,
        requested,
        answers,
        shutdown,
        looks,
    ));
    while looks_left > 0
        invariant
            answers == answers_of(barrier),
            pausing == old(pauser).pausing(),
            looks.len() + looks_left == LOOK_LIMIT,
            undecided(requested, answers, shutdown, looks),
            record.extends(
                old(record),
                looks_and_pauses(pausing, requested, answers, shutdown, looks),
            ),
            pauser.fixed() == old(pauser).fixed(),
            pauser.pausing() == pausing,
            pauser.has_paused(looks.len() as int),
        decreases looks_left,
    {
        let ghost before = record.log();
        let decision = look(record, requested, barrier, shutdown);
        let ghost made = choose|made: Look|
            {
                &&& #[trigger] made.made(requested, answers, shutdown)
                &&& decision == made.decision(requested)
                &&& record.log() == before + look_accesses(requested, answers, shutdown, made)
            };
        proof {
            lemma_look_follows(pausing, requested, answers, shutdown, looks, made);
        }
        let ghost in_vain = looks;
        proof {
            looks = looks.push(made);
        }
        if let Some(outcome) = decision {
            assert(record.log() == old(record).log() + looks_and_pauses(
                pausing,
                requested,
                answers,
                shutdown,
                looks,
            ));
            return (outcome, Ghost(looks));
        }
        assert(pauser.has_paused(in_vain.len() as int));
        pauser.pause(record);
        assert(record.log() == old(record).log() + looks_and_pauses(
            pausing,
            requested,
            answers,
            shutdown,
            looks,
        ));
        looks_left -= 1;
    }
    (WaitOutcome::Timeout, Ghost(looks))
}

/// Busy spin wait strategy. Lowest possible latency.
#[derive(Clone, Copy, Default)]
pub struct BusySpin;

impl WaitStrategy for BusySpin {
    type Waiter = BusySpinWaiter;

    type Notifier = NoopWakeupNotifier;

    fn new_waiter(&self) -> (waiter: Self::Waiter)
        ensures
            waiter.record.log() == Seq::<Access>::empty(),
    {
        BusySpinWaiter { record: Record::new() }
    }

    fn notifier(&self) -> Self::Notifier {
        NoopWakeupNotifier
    }
}

/// The waiter of [`BusySpin`] does nothing between two looks.
pub struct NoPause;

impl Pauser for NoPause {
    type Fixed = ();

    open spec fn fixed(&self) -> () {
        ()
    }

    open spec fn pausing(&self) -> Pausing {
        Pausing::Never
    }

    open spec fn has_paused(&self, times: int) -> bool {
        true
    }

    fn pause(&mut self, record: &mut Record) {
        assert(record.log() == record.log() + Seq::<Access>::empty());
    }
}

/// State holder for [`BusySpin`] wait strategy.
pub struct BusySpinWaiter {
    /// What the waiter did so far.
    pub record: Record,
}

impl Waiter for BusySpinWaiter {
    open spec fn reports(
        &self,
        requested: Sequence,
        answers: Answers,
        shutdown: &CachePadded<AtomicI64>,
        outcome: WaitOutcome,
        after: &Self,
    ) -> bool {
        exists|looks: Seq<Look>|
            wait_recorded(
                Pausing::Never,
                &self.record,
                &after.record,
                requested,
                answers,
                shutdown,
                looks,
                outcome,
            )
    }

    /// Looks again and again without a pause.
    fn wait_for<B: Barrier>(
        &mut self,
        requested: Sequence,
        barrier: &B,
        shutdown: &CachePadded<AtomicI64>,
    ) -> (outcome: WaitOutcome) {
        let mut pauser = NoPause;
        let (outcome, looks) = look_until_decided(
            &mut self.record,
            &mut pauser,
            requested,
            barrier,
            shutdown,
        );
        assert(wait_recorded(
            Pausing::Never,
            &old(self).record,
            &self.record,
            requested,
            answers_of(barrier),
            shutdown,
            looks@,
            outcome,
        ));
        outcome
    }
}

/// `std::hint::spin_loop`, which has no effect that a program could observe.
pub assume_specification[ std::hint::spin_loop ]();

/// The processor was told that it is in a spin loop.
pub open spec fn spun() -> bool {
    call_ensures(std::hint::spin_loop, (), ())
}

/// Busy spin wait strategy with spin loop hint which enables the processor to optimize its behavior
/// by e.g. saving power or switching hyper threads. Obviously, this can induce latency.
///
/// See also [`BusySpin`].
#[derive(Clone, Copy, Default)]
pub struct BusySpinWithSpinLoopHint;

impl WaitStrategy for BusySpinWithSpinLoopHint {
    type Waiter = BusySpinWithSpinLoopHintWaiter;

    type Notifier = NoopWakeupNotifier;

    fn new_waiter(&self) -> (waiter: Self::Waiter)
        ensures
            waiter.record.log() == Seq::<Access>::empty(),
    {
        BusySpinWithSpinLoopHintWaiter { record: Record::new() }
    }

    fn notifier(&self) -> Self::Notifier {
        NoopWakeupNotifier
    }
}

/// The waiter of [`BusySpinWithSpinLoopHint`] gives a spin loop hint between two looks.
pub struct SpinPause;

impl Pauser for SpinPause {
    type Fixed = ();

    open spec fn fixed(&self) -> () {
        ()
    }

    open spec fn pausing(&self) -> Pausing {
        Pausing::Spins
    }

    open spec fn has_paused(&self, times: int) -> bool {
        true
    }

    fn pause(&mut self, record: &mut Record) {
        record.spin();
    }
}

/// State holder for [`BusySpinWithSpinLoopHint`] wait strategy.
pub struct BusySpinWithSpinLoopHintWaiter {
    /// What the waiter did so far.
    pub record: Record,
}

impl Waiter for BusySpinWithSpinLoopHintWaiter {
    open spec fn reports(
        &self,
        requested: Sequence,
        answers: Answers,
        shutdown: &CachePadded<AtomicI64>,
        outcome: WaitOutcome,
        after: &Self,
    ) -> bool {
        exists|looks: Seq<Look>|
            wait_recorded(
                Pausing::Spins,
                &self.record,
                &after.record,
                requested,
                answers,
                shutdown,
                looks,
                outcome,
            )
    }

    /// Looks again and again, with a spin loop hint after each look that does not decide.
    fn wait_for<B: Barrier>(
        &mut self,
        requested: Sequence,
        barrier: &B,
        shutdown: &CachePadded<AtomicI64>,
    ) -> (outcome: WaitOutcome) {
        let mut pauser = SpinPause;
        let (outcome, looks) = look_until_decided(
            &mut self.record,
            &mut pauser,
            requested,
            barrier,
            shutdown,
        );
        assert(wait_recorded(
            Pausing::Spins,
            &old(self).record,
            &self.record,
            requested,
            answers_of(barrier),
            shutdown,
            looks@,
            outcome,
        ));
        outcome
    }
}

/// How many looks of a [`YieldingWaiter`] are followed by a spin before it starts to yield.
pub const SPIN_TRIES: u32 = 100;

/// How the thread gives up the rest of its time slice. That is the operating system's matter, so
/// it is handed to the strategy from outside.
pub trait YieldNow: Send + Sync + Clone + 'static {
    /// Lets other threads run.
    fn yield_now(&self);
}

/// The thread was told to let others run.
pub open spec fn yielded<Y: YieldNow>(thread: &Y) -> bool {
    call_ensures(Y::yield_now, (thread,), ())
}

/// Yielding wait strategy: spin for a while, then yield the thread.
///
/// It trades a small increase in latency for reduced CPU usage under contention.
#[derive(Copy, Default)]
pub struct YieldingWaitStrategy<Y> {
    /// How a waiter yields.
    pub thread: Y,
}

impl<Y: Clone> Clone for YieldingWaitStrategy<Y> {
    fn clone(&self) -> (strategy: Self)
        ensures
            cloned(self.thread, strategy.thread),
    {
        YieldingWaitStrategy { thread: self.thread.clone() }
    }
}

impl<Y: YieldNow> WaitStrategy for YieldingWaitStrategy<Y> {
    type Waiter = YieldingWaiter<Y>;

    type Notifier = NoopWakeupNotifier;

    fn new_waiter(&self) -> (waiter: Self::Waiter)
        ensures
            waiter.spins_remaining == SPIN_TRIES,
            cloned(self.thread, waiter.thread),
            waiter.record.log() == Seq::<Access>::empty(),
    {
        YieldingWaiter {
            spins_remaining: SPIN_TRIES,
            thread: self.thread.clone(),
            record: Record::new(),
        }
    }

    fn notifier(&self) -> Self::Notifier {
        NoopWakeupNotifier
    }
}

/// What a [`YieldingWaiter`] does after a look that did not decide.
#[derive(Debug, Clone, Copy, PartialEq, Eq, Structural)]
pub enum Pause {
    /// Give the processor a spin loop hint.
    Spin,
    /// Yield the thread.
    Yield,
}

/// State holder for [`YieldingWaitStrategy`].
pub struct YieldingWaiter<Y> {
    /// How many spins are left before the waiter yields.
    pub spins_remaining: u32,
    /// How the waiter yields.
    pub thread: Y,
    /// What the waiter did so far.
    pub record: Record,
}

/// The spins that are left of the budget after that many looks in vain.
pub open spec fn spins_left(in_vain: int) -> int {
    if in_vain < SPIN_TRIES {
        SPIN_TRIES - in_vain
    } else {
        0
    }
}

/// What a [`YieldingWaiter`] pauses by in one wait.
pub struct Budget<'a, Y> {
    /// How many spins are left before the waiter yields.
    pub spins_remaining: u32,
    /// How the waiter yields.
    pub thread: &'a Y,
}

impl<'a, Y> Budget<'a, Y> {
    /// Takes a spin from the budget or, where none is left, asks for a yield.
    pub fn next_pause(&mut self) -> (pause: Pause)
        ensures
            pause == if old(self).spins_remaining > 0 {
                Pause::Spin
            } else {
                Pause::Yield
            },
            final(self).spins_remaining == if old(self).spins_remaining > 0 {
                old(self).spins_remaining - 1
            } else {
                0
            },
            final(self).thread == old(self).thread,
    {
        if self.spins_remaining > 0 {
            self.spins_remaining -= 1;
            Pause::Spin
        } else {
            Pause::Yield
        }
    }
}

impl<'a, Y: YieldNow> Pauser for Budget<'a, Y> {
    type Fixed = Y;

    open spec fn fixed(&self) -> Y {
        *self.thread
    }

    open spec fn pausing(&self) -> Pausing {
        Pausing::SpinsThenYields
    }

    open spec fn has_paused(&self, times: int) -> bool {
        &&& self.spins_remaining == spins_left(times)
        &&& times > SPIN_TRIES ==> yielded(self.thread)
    }

    /// Gives a spin loop hint as long as the budget lasts, and yields after that.
    fn pause(&mut self, record: &mut Record) {
        match self.next_pause() {
            Pause::Spin => record.spin(),
            Pause::Yield => record.yield_now(self.thread),
        }
    }
}

impl<Y: YieldNow> Waiter for YieldingWaiter<Y> {
    open spec fn reports(
        &self,
        requested: Sequence,
        answers: Answers,
        shutdown: &CachePadded<AtomicI64>,
        outcome: WaitOutcome,
        after: &Self,
    ) -> bool {
        &&& after.thread == self.thread
        &&& exists|looks: Seq<Look>|
            {
                &&& #[trigger] wait_recorded(
                    Pausing::SpinsThenYields,
                    &self.record,
                    &after.record,
                    requested,
                    answers,
                    shutdown,
                    looks,
                    outcome,
                )
                &&& after.spins_remaining == spins_left(looks_in_vain(looks, outcome))
                &&& looks_in_vain(looks, outcome) > SPIN_TRIES ==> yielded(&self.thread)
            }
    }

    /// Starts with a full budget of spins. Each look that does not decide is followed by a spin
    /// as long as the budget lasts, and by a yield after that.
    fn wait_for<B: Barrier>(
        &mut self,
        requested: Sequence,
        barrier: &B,
        shutdown: &CachePadded<AtomicI64>,
    ) -> (outcome: WaitOutcome) {
        let mut budget = Budget { spins_remaining: SPIN_TRIES, thread: &self.thread };
        let (outcome, looks) = look_until_decided(
            &mut self.record,
            &mut budget,
            requested,
            barrier,
            shutdown,
        );
        self.spins_remaining = budget.spins_remaining;
        assert(wait_recorded(
            Pausing::SpinsThenYields,
            &old(self).record,
            &self.record,
            requested,
            answers_of(barrier),
            shutdown,
            looks@,
            outcome,
        ));
        outcome
    }
}

} // verus!
