//! Laws of waiting: what decides a wait, and in which order a blocking waiter goes about it.

use crate::wait_strategies::blocking::{
    blocked, looks_completed, next_phase, phase_after, Phase, Place, Plan,
};
use crate::wait_strategies::record::{Access, Answers};
use crate::wait_strategies::{
    look_accesses, looks_and_pauses, pause_after, wait_decision, waited, Look, Pausing, WaitOutcome,
};
use crate::Sequence;
use crossbeam_utils::CachePadded;
use std::sync::atomic::AtomicI64;
use vstd::prelude::*;

verus! {

/// A waiter that finds its event does not learn of a shutdown: what was published is handled
/// before a consumer stops.
pub proof fn an_available_event_goes_before_a_shutdown(
    requested: Sequence,
    available: Sequence,
    shutdown_at: Sequence,
)
    requires
        requested <= available,
    ensures
        wait_decision(requested, available, shutdown_at) == Some(
            WaitOutcome::Available { upper: available },
        ),
{
}

/// The looks of a wait decide its outcome, whatever the strategy.
pub proof fn the_looks_decide_the_outcome(
    requested: Sequence,
    answers: Answers,
    shutdown: &CachePadded<AtomicI64>,
    looks: Seq<Look>,
    one: WaitOutcome,
    other: WaitOutcome,
)
    requires
        waited(requested, answers, shutdown, looks, one),
        waited(requested, answers, shutdown, looks, other),
    ensures
        one == other,
{
}

/// The accesses of a blocking wait decide its outcome.
pub proof fn the_accesses_decide_the_outcome(
    plan: Plan,
    answers: Answers,
    shutdown: &CachePadded<AtomicI64>,
    accesses: Seq<Access>,
    one: WaitOutcome,
    other: WaitOutcome,
)
    requires
        blocked(plan, answers, shutdown, accesses, one),
        blocked(plan, answers, shutdown, accesses, other),
    ensures
        one == other,
{
}

/// The phase before an access and the one after it.
proof fn lemma_step(plan: Plan, accesses: Seq<Access>, k: int)
    requires
        0 < k <= accesses.len(),
        phase_after(plan, accesses.take(k)) is Some,
    ensures
        phase_after(plan, accesses.take(k - 1)) is Some,
        phase_after(plan, accesses.take(k)) == next_phase(
            plan,
            phase_after(plan, accesses.take(k - 1))->0,
            accesses[k - 1],
        ),
        looks_completed(accesses.take(k)) == looks_completed(accesses.take(k - 1)) + if accesses[k
            - 1] is Marker {
            1nat
        } else {
            0nat
        },
{
    assert(accesses.take(k).drop_last() == accesses.take(k - 1));
}

/// Where a waiter stands as long as its looks have not used up the spin window.
proof fn lemma_in_window(plan: Plan, accesses: Seq<Access>, k: int)
    requires
        0 <= k <= accesses.len(),
        phase_after(plan, accesses.take(k)) is Some,
        looks_completed(accesses.take(k)) <= plan.spin_tries,
    ensures
        match phase_after(plan, accesses.take(k))->0 {
            Phase::AskBarrier { place: Place::Round } | Phase::ReadShutdown {
                place: Place::Round,
            } => looks_completed(accesses.take(k)) == 0,
            Phase::AskBarrier { place: Place::Window { left } } | Phase::ReadShutdown {
                place: Place::Window { left },
            } => left > 0 && looks_completed(accesses.take(k)) == 1 + plan.spin_tries - left,
            Phase::Spin { left } => left > 0 && looks_completed(accesses.take(k)) == 2
                + plan.spin_tries - left,
            Phase::Fence { place, .. } => place !is Guarded,
            Phase::Done { .. } => true,
            _ => false,
        },
    decreases k,
{
    if k > 0 {
        lemma_step(plan, accesses, k);
        lemma_in_window(plan, accesses, k - 1);
    } else {
        assert(accesses.take(0) == Seq::<Access>::empty());
    }
}

/// As long as its looks have not used up the spin window, a blocking waiter does nothing but look
/// and spin: it takes no lock, announces nothing and does not sleep.
pub proof fn the_spin_window_only_looks(plan: Plan, accesses: Seq<Access>, k: int)
    requires
        0 <= k < accesses.len(),
        phase_after(plan, accesses.take(k + 1)) is Some,
        looks_completed(accesses.take(k)) <= plan.spin_tries,
    ensures
        accesses[k] is Barrier || accesses[k] is Fence || accesses[k] is Marker
            || accesses[k] is Spin,
{
    lemma_step(plan, accesses, k + 1);
    lemma_in_window(plan, accesses, k);
}

/// Where a waiter stands that has not taken the lock yet.
proof fn lemma_before_lock(plan: Plan, accesses: Seq<Access>, k: int)
    requires
        0 <= k <= accesses.len(),
        phase_after(plan, accesses.take(k)) is Some,
        forall|i: int| 0 <= i < k ==> (#[trigger] accesses[i]) !is Lock,
    ensures
        match phase_after(plan, accesses.take(k))->0 {
            Phase::AskBarrier { place: Place::Round } | Phase::ReadShutdown {
                place: Place::Round,
            } => looks_completed(accesses.take(k)) == 0,
            Phase::AskBarrier { place: Place::Window { left } } | Phase::ReadShutdown {
                place: Place::Window { left },
            } => left > 0 && looks_completed(accesses.take(k)) == 1 + plan.spin_tries - left,
            Phase::Spin { left } => left > 0 && looks_completed(accesses.take(k)) == 2
                + plan.spin_tries - left,
            Phase::Fence { place, .. } => place !is Guarded,
            Phase::Lock => looks_completed(accesses.take(k)) == 1 + plan.spin_tries,
            Phase::Done { .. } => true,
            _ => false,
        },
    decreases k,
{
    if k > 0 {
        lemma_step(plan, accesses, k);
        assert(accesses[k - 1] !is Lock);
        lemma_before_lock(plan, accesses, k - 1);
    } else {
        assert(accesses.take(0) == Seq::<Access>::empty());
    }
}

/// A blocking waiter takes the lock for the first time after one look and as many more as its spin
/// window has tries.
pub proof fn the_lock_comes_after_the_spin_window(plan: Plan, accesses: Seq<Access>, k: int)
    requires
        0 <= k < accesses.len(),
        phase_after(plan, accesses.take(k + 1)) is Some,
        accesses[k] is Lock,
        forall|i: int| 0 <= i < k ==> (#[trigger] accesses[i]) !is Lock,
    ensures
        looks_completed(accesses.take(k)) == 1 + plan.spin_tries,
{
    lemma_step(plan, accesses, k + 1);
    lemma_before_lock(plan, accesses, k);
}

/// A blocking waiter never goes to sleep unseeing. Since it has had the lock it has announced
/// itself, if it is one that does, and has then looked at the barrier and at the marker, in this
/// order and without another access in between.
pub proof fn a_waiter_looks_before_it_sleeps(plan: Plan, accesses: Seq<Access>, k: int)
    requires
        0 <= k < accesses.len(),
        phase_after(plan, accesses.take(k + 1)) is Some,
        accesses[k] is Sleep,
    ensures
        k >= 3,
        accesses[k - 1] matches Access::Marker { shutdown_at, .. } && shutdown_at != plan.requested,
        accesses[k - 2] matches Access::Barrier { available, .. } && available < plan.requested,
        plan.announces ==> {
            &&& accesses[k - 3] is Announcement
            &&& k >= 4
            &&& accesses[k - 4] is Lock || accesses[k - 4] is Sleep
        },
        !plan.announces ==> accesses[k - 3] is Lock || accesses[k - 3] is Sleep,
{
    assert(accesses.take(0) == Seq::<Access>::empty());
    lemma_step(plan, accesses, k + 1);
    lemma_step(plan, accesses, k);
    lemma_guarded(plan, accesses, k - 1);
    lemma_guarded(plan, accesses, k - 2);
    if plan.announces {
        lemma_guarded(plan, accesses, k - 3);
    }
}

/// How a waiter came into a phase under the lock.
proof fn lemma_guarded(plan: Plan, accesses: Seq<Access>, k: int)
    requires
        0 <= k <= accesses.len(),
        phase_after(plan, accesses.take(k)) matches Some(phase) && match phase {
            Phase::AskBarrier { place: Place::Guarded { .. } } => true,
            Phase::ReadShutdown { place: Place::Guarded { .. } } => true,
            Phase::Announce { .. } => true,
            _ => false,
        },
    ensures
        k > 0,
        phase_after(plan, accesses.take(k - 1)) is Some,
        match phase_after(plan, accesses.take(k))->0 {
            Phase::ReadShutdown { .. } => {
                &&& accesses[k - 1] matches Access::Barrier { available, .. } && available
                    < plan.requested
                &&& phase_after(plan, accesses.take(k - 1)) matches Some(
                    Phase::AskBarrier { place: Place::Guarded { .. } },
                )
            },
            Phase::AskBarrier { .. } => if plan.announces {
                &&& accesses[k - 1] is Announcement
                &&& phase_after(plan, accesses.take(k - 1)) matches Some(Phase::Announce { .. })
            } else {
                accesses[k - 1] is Lock || accesses[k - 1] is Sleep
            },
            _ => accesses[k - 1] is Lock || accesses[k - 1] is Sleep,
        },
{
    assert(accesses.take(0) == Seq::<Access>::empty());
    if k > 0 {
        lemma_step(plan, accesses, k);
    }
    if k > 1 {
        lemma_step(plan, accesses, k - 1);
    }
}

/// A wait that does not sleep writes nothing, however many looks it takes: it asks the barrier, reads
/// the marker, issues fences and pauses.
pub proof fn a_wait_that_does_not_sleep_writes_nothing(
    pausing: Pausing,
    requested: Sequence,
    answers: Answers,
    shutdown: &CachePadded<AtomicI64>,
    looks: Seq<Look>,
    i: int,
)
    requires
        0 <= i < looks_and_pauses(pausing, requested, answers, shutdown, looks).len(),
    ensures
        ({
            let access = looks_and_pauses(pausing, requested, answers, shutdown, looks)[i];
            access is Barrier || access is Marker || access is Fence || access is Spin
                || access is Yield
        }),
    decreases looks.len(),
{
    let before = looks_and_pauses(pausing, requested, answers, shutdown, looks.drop_last());
    let look = look_accesses(requested, answers, shutdown, looks.last());
    if i < before.len() {
        a_wait_that_does_not_sleep_writes_nothing(
            pausing,
            requested,
            answers,
            shutdown,
            looks.drop_last(),
            i,
        );
        assert(looks_and_pauses(pausing, requested, answers, shutdown, looks)[i] == before[i]);
    } else if i < before.len() + look.len() {
        assert(looks_and_pauses(pausing, requested, answers, shutdown, looks)[i] == look[i
            - before.len()]);
    } else {
        let pause = pause_after(pausing, looks.len() - 1);
        assert(looks_and_pauses(pausing, requested, answers, shutdown, looks)[i] == pause[i
            - before.len() - look.len()]);
    }
}

} // verus!
