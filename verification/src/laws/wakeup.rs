//! A model of the blocking strategies, and the law that no wake-up is lost in it. That waits and
//! wakes return is stated in [`returning`] and [`fair_runs`].
//!
//! Waiters and wakers of one strategy take turns in any order, one access to what they share at a
//! time. A waiter goes by the phases of [`blocking`](crate::wait_strategies::blocking). A waker
//! changes what some waiters wait for and then wakes: if the strategy has a flag it takes the flag
//! down and stops there if it was down already; else it takes the lock, raises the counter,
//! notifies the sleepers and gives the lock back. The accesses are taken to be in one order that
//! all threads see. A barrier reads its cells one after the other, and others may write to them in
//! between; it gives the least of the values.
//!
//! The contracts of the waiters and of the wakers say that they do what they do in the model: their
//! records follow the same phases, and the last laws below tie each access of a record to a move.

pub mod fair_runs;
pub mod returning;

use crate::consumer::is_slowest;
use crate::laws::stages::the_slowest_is_unique;
use crate::monitor::next_epoch;
use crate::wait_strategies::blocking::{
    after_announce, after_barrier, after_fence, after_lock, after_shutdown, after_sleep,
    after_spin, first_phase, holds_lock, next_phase, rung, Phase, Place, Plan,
};
use crate::wait_strategies::record::{Access, Ring};
use crate::wait_strategies::wait_decision;
use crate::Sequence;
use vstd::prelude::*;

verus! {

/// Where a waiter stands.
pub enum WaiterState {
    /// It runs and is in the phase.
    Running {
        /// The phase.
        phase: Phase,
    },
    /// It gave the lock back and sleeps. The counter was `epoch` when it took the lock.
    Asleep {
        /// What the counter was.
        epoch: u64,
    },
    /// It sleeps no more and has to get the lock back.
    Waking {
        /// What the counter was.
        epoch: u64,
    },
}

/// A waiter.
pub struct WaiterThread {
    /// What it goes by.
    pub plan: Plan,
    /// Where it stands.
    pub state: WaiterState,
    /// What its barrier read of its cells when it was last asked.
    pub seen: Seq<Sequence>,
}

/// Where a waker stands.
pub enum WakerState {
    /// It has nothing to do.
    Idle,
    /// It has changed what waiters wait for and not begun to wake them.
    Published,
    /// It will take the lock.
    Committed,
    /// It has the lock.
    Locked,
    /// It has raised the counter.
    Raised,
    /// It has notified the sleepers.
    Notified,
}

/// Who holds the lock.
pub enum Holder {
    /// A waiter, by its number.
    Waiter(int),
    /// A waker, by its number.
    Waker(int),
}

/// All threads of one strategy and what they share.
pub struct World {
    /// The cells that the barrier of each waiter watches.
    pub cells: Seq<Seq<Sequence>>,
    /// What the shutdown marker holds.
    pub shutdown_at: Sequence,
    /// The counter.
    pub epoch: u64,
    /// Whether the strategy has a flag.
    pub announces: bool,
    /// The flag.
    pub signal_needed: bool,
    /// Who holds the lock.
    pub holder: Option<Holder>,
    /// The waiters.
    pub waiters: Seq<WaiterThread>,
    /// The wakers.
    pub wakers: Seq<WakerState>,
}

/// One access of one thread.
pub enum Move {
    /// The waiter does what its phase says.
    Act {
        /// The waiter.
        waiter: int,
    },
    /// The waiter begins another wait.
    Begin {
        /// The waiter.
        waiter: int,
        /// What it goes by from now on.
        plan: Plan,
    },
    /// The waiter wakes up though nobody notified it.
    Stir {
        /// The waiter.
        waiter: int,
    },
    /// The waiter gets the lock back.
    Return {
        /// The waiter.
        waiter: int,
    },
    /// The waker changes what waiters wait for.
    Publish {
        /// The waker.
        waker: int,
        /// What the cells hold from now on.
        cells: Seq<Seq<Sequence>>,
        /// What the shutdown marker holds from now on.
        shutdown_at: Sequence,
    },
    /// The waker begins to wake.
    Wake {
        /// The waker.
        waker: int,
    },
    /// The waker takes the lock.
    TakeLock {
        /// The waker.
        waker: int,
    },
    /// The waker raises the counter.
    Raise {
        /// The waker.
        waker: int,
    },
    /// The waker notifies the sleepers.
    Notify {
        /// The waker.
        waker: int,
    },
    /// The waker gives the lock back.
    Release {
        /// The waker.
        waker: int,
    },
}

/// The least of the values, or the greatest number where there are none.
pub open spec fn least(values: Seq<Sequence>) -> Sequence
    decreases values.len(),
{
    if values.len() == 0 {
        i64::MAX
    } else if values.last() < least(values.drop_last()) {
        values.last()
    } else {
        least(values.drop_last())
    }
}

impl World {
    /// The waiter, with another state.
    pub open spec fn with_waiter(self, waiter: int, state: WaiterState) -> World {
        let thread = WaiterThread { state, ..self.waiters[waiter] };
        World { waiters: self.waiters.update(waiter, thread), ..self }
    }

    /// The waiter, whose barrier has read one more of its cells.
    pub open spec fn reading_on(self, waiter: int) -> World {
        let seen = self.waiters[waiter].seen;
        let value = self.cells[waiter][seen.len() as int];
        let thread = WaiterThread { seen: seen.push(value), ..self.waiters[waiter] };
        World { waiters: self.waiters.update(waiter, thread), ..self }
    }

    /// The waiter, in another phase. It gives the lock back if it had it and the phase is not one
    /// under the lock. If the barrier is to be asked it has to read all of its cells anew.
    pub open spec fn in_phase(self, waiter: int, phase: Phase) -> World {
        let thread = WaiterThread {
            plan: self.waiters[waiter].plan,
            state: WaiterState::Running { phase },
            seen: if phase is AskBarrier {
                Seq::empty()
            } else {
                self.waiters[waiter].seen
            },
        };
        let next = World { waiters: self.waiters.update(waiter, thread), ..self };
        if self.holder == Some(Holder::Waiter(waiter)) && !holds_lock(phase) {
            World { holder: None, ..next }
        } else {
            next
        }
    }

    /// The waker, in another state.
    pub open spec fn with_waker(self, waker: int, state: WakerState) -> World {
        World { wakers: self.wakers.update(waker, state), ..self }
    }

    /// Whether the threads can make the move now.
    pub open spec fn allows(self, m: Move) -> bool {
        match m {
            Move::Act { waiter } => {
                &&& 0 <= waiter < self.waiters.len()
                &&& self.waiters[waiter].state matches WaiterState::Running { phase } && {
                    &&& phase !is Done
                    &&& phase is Lock ==> self.holder is None
                }
            },
            Move::Begin { waiter, plan } => {
                &&& 0 <= waiter < self.waiters.len()
                &&& self.waiters[waiter].state matches WaiterState::Running { phase }
                    && phase is Done
                &&& plan.announces == self.announces
            },
            Move::Stir { waiter } => {
                &&& 0 <= waiter < self.waiters.len()
                &&& self.waiters[waiter].state is Asleep
            },
            Move::Return { waiter } => {
                &&& 0 <= waiter < self.waiters.len()
                &&& self.waiters[waiter].state is Waking
                &&& self.holder is None
            },
            Move::Publish { waker, cells, shutdown_at } => {
                &&& 0 <= waker < self.wakers.len()
                &&& self.wakers[waker] is Idle || self.wakers[waker] is Published
                &&& cells.len() == self.cells.len()
                &&& forall|waiter: int|
                    0 <= waiter < cells.len() ==> (#[trigger] cells[waiter]).len()
                        == self.cells[waiter].len()
            },
            Move::Wake { waker } => {
                &&& 0 <= waker < self.wakers.len()
                &&& self.wakers[waker] is Published
            },
            Move::TakeLock { waker } => {
                &&& 0 <= waker < self.wakers.len()
                &&& self.wakers[waker] is Committed
                &&& self.holder is None
            },
            Move::Raise { waker } => {
                &&& 0 <= waker < self.wakers.len()
                &&& self.wakers[waker] is Locked
            },
            Move::Notify { waker } => {
                &&& 0 <= waker < self.wakers.len()
                &&& self.wakers[waker] is Raised
            },
            Move::Release { waker } => {
                &&& 0 <= waker < self.wakers.len()
                &&& self.wakers[waker] is Notified
            },
        }
    }

    /// What the move of a waiter in the phase leads to.
    pub open spec fn acted(self, waiter: int, phase: Phase) -> World {
        let plan = self.waiters[waiter].plan;
        match phase {
            Phase::AskBarrier { place } => if self.waiters[waiter].seen.len()
                < self.cells[waiter].len() {
                self.reading_on(waiter)
            } else {
                self.in_phase(waiter, after_barrier(plan, place, least(self.waiters[waiter].seen)))
            },
            Phase::Fence { upper, .. } => self.in_phase(waiter, after_fence(upper)),
            Phase::ReadShutdown { place } => self.in_phase(
                waiter,
                after_shutdown(plan, place, self.shutdown_at),
            ),
            Phase::Spin { left } => self.in_phase(waiter, after_spin(left)),
            Phase::Lock => World {
                holder: Some(Holder::Waiter(waiter)),
                ..self.in_phase(waiter, after_lock(plan, self.epoch))
            },
            Phase::Announce { epoch } => World {
                signal_needed: true,
                ..self.in_phase(waiter, after_announce(epoch))
            },
            Phase::Sleep { epoch } => World {
                holder: None,
                ..self.with_waiter(waiter, WaiterState::Asleep { epoch })
            },
            Phase::Done { .. } => self,
        }
    }

    /// What the move leads to.
    pub open spec fn after(self, m: Move) -> World {
        match m {
            Move::Act { waiter } => match self.waiters[waiter].state {
                WaiterState::Running { phase } => self.acted(waiter, phase),
                _ => self,
            },
            Move::Begin { waiter, plan } => {
                let thread = WaiterThread {
                    plan,
                    state: WaiterState::Running { phase: first_phase() },
                    seen: Seq::empty(),
                };
                World { waiters: self.waiters.update(waiter, thread), ..self }
            },
            Move::Stir { waiter } => match self.waiters[waiter].state {
                WaiterState::Asleep { epoch } => self.with_waiter(
                    waiter,
                    WaiterState::Waking { epoch },
                ),
                _ => self,
            },
            Move::Return { waiter } => match self.waiters[waiter].state {
                WaiterState::Waking { epoch } => {
                    let phase = after_sleep(self.waiters[waiter].plan, epoch, self.epoch);
                    World {
                        holder: if holds_lock(phase) {
                            Some(Holder::Waiter(waiter))
                        } else {
                            None
                        },
                        ..self.in_phase(waiter, phase)
                    }
                },
                _ => self,
            },
            Move::Publish { waker, cells, shutdown_at } => World {
                cells,
                shutdown_at,
                ..self.with_waker(waker, WakerState::Published)
            },
            Move::Wake { waker } => if !self.announces {
                self.with_waker(waker, WakerState::Committed)
            } else if self.signal_needed {
                World { signal_needed: false, ..self.with_waker(waker, WakerState::Committed) }
            } else {
                self.with_waker(waker, WakerState::Idle)
            },
            Move::TakeLock { waker } => World {
                holder: Some(Holder::Waker(waker)),
                ..self.with_waker(waker, WakerState::Locked)
            },
            Move::Raise { waker } => World {
                epoch: next_epoch(self.epoch),
                ..self.with_waker(waker, WakerState::Raised)
            },
            Move::Notify { waker } => World {
                waiters: Seq::new(self.waiters.len(), |i: int| notified(self.waiters[i])),
                ..self.with_waker(waker, WakerState::Notified)
            },
            Move::Release { waker } => World {
                holder: None,
                ..self.with_waker(waker, WakerState::Idle)
            },
        }
    }

    /// What the waiter waits for is there.
    pub open spec fn has_something_to_do(self, waiter: int) -> bool {
        wait_decision(
            self.waiters[waiter].plan.requested,
            least(self.cells[waiter]),
            self.shutdown_at,
        ) is Some
    }

    /// A waker will notify the sleepers, whatever the flag is.
    pub open spec fn notification_is_due(self) -> bool {
        exists|waker: int|
            0 <= waker < self.wakers.len() && will_notify(#[trigger] self.wakers[waker])
    }

    /// A waker has changed what waiters wait for and will look at the flag, if there is one.
    pub open spec fn change_is_new(self) -> bool {
        exists|waker: int|
            0 <= waker < self.wakers.len() && (#[trigger] self.wakers[waker]) is Published
    }

    /// Nobody waits, sleeps or wakes yet.
    pub open spec fn begins(self) -> bool {
        &&& self.cells.len() == self.waiters.len()
        &&& !self.signal_needed
        &&& self.holder is None
        &&& forall|waiter: int|
            0 <= waiter < self.waiters.len() ==> {
                &&& (#[trigger] self.waiters[waiter]).plan.announces == self.announces
                &&& self.waiters[waiter].state == WaiterState::Running { phase: first_phase() }
                &&& self.waiters[waiter].seen == Seq::<Sequence>::empty()
            }
        &&& forall|waker: int|
            0 <= waker < self.wakers.len() ==> (#[trigger] self.wakers[waker]) is Idle
    }

    /// The cell that the index names held too little when it was read and holds enough now.
    spec fn cell_has_risen(self, waiter: int, k: int) -> bool {
        &&& 0 <= k < self.waiters[waiter].seen.len()
        &&& self.waiters[waiter].seen[k] < self.waiters[waiter].plan.requested
        &&& self.cells[waiter][k] >= self.waiters[waiter].plan.requested
    }

    /// Something has changed in favour of the waiter since it looked, and it will not look again
    /// before it is notified.
    spec fn overlooked(self, waiter: int) -> bool {
        &&& stays_until_notified(self.waiters[waiter])
        &&& {
            ||| exists|k: int| #[trigger] self.cell_has_risen(waiter, k)
            ||| has_read_marker(self.waiters[waiter]) && self.shutdown_at
                == self.waiters[waiter].plan.requested
        }
    }

    /// The lock is held by the thread whose state says so.
    spec fn lock_is_consistent(self) -> bool {
        &&& match self.holder {
            Some(Holder::Waiter(waiter)) => 0 <= waiter < self.waiters.len(),
            Some(Holder::Waker(waker)) => 0 <= waker < self.wakers.len(),
            None => true,
        }
        &&& forall|waiter: int|
            0 <= waiter < self.waiters.len() ==> (under_lock(#[trigger] self.waiters[waiter])
                <==> self.holder == Some(Holder::Waiter(waiter)))
        &&& forall|waker: int|
            0 <= waker < self.wakers.len() ==> (has_lock(#[trigger] self.wakers[waker])
                <==> self.holder == Some(Holder::Waker(waker)))
    }

    /// What every move keeps.
    spec fn sound(self) -> bool {
        &&& self.cells.len() == self.waiters.len()
        &&& self.lock_is_consistent()
        &&& forall|waiter: int|
            0 <= waiter < self.waiters.len() ==> {
                &&& (#[trigger] self.waiters[waiter]).plan.announces == self.announces
                &&& looked_in_vain(self.waiters[waiter], self.cells[waiter].len())
            }
        &&& forall|waiter: int|
            0 <= waiter < self.waiters.len() && self.announces && counts_on_flag(
                #[trigger] self.waiters[waiter],
            ) ==> self.signal_needed || self.notification_is_due()
        &&& forall|waiter: int|
            0 <= waiter < self.waiters.len() && #[trigger] self.overlooked(waiter)
                ==> self.notification_is_due() || self.change_is_new()
    }
}

/// A waiter that was notified.
pub open spec fn notified(thread: WaiterThread) -> WaiterThread {
    match thread.state {
        WaiterState::Asleep { epoch } => WaiterThread {
            state: WaiterState::Waking { epoch },
            ..thread
        },
        _ => thread,
    }
}

/// A waker in this state will notify the sleepers.
pub open spec fn will_notify(state: WakerState) -> bool {
    state is Committed || state is Locked || state is Raised
}

/// A waker in this state has the lock.
spec fn has_lock(state: WakerState) -> bool {
    state is Locked || state is Raised || state is Notified
}

/// The waiter has the lock.
spec fn under_lock(thread: WaiterThread) -> bool {
    thread.state matches WaiterState::Running { phase } && holds_lock(phase)
}

/// The waiter has raised the flag and counts on it that it will be notified.
spec fn counts_on_flag(thread: WaiterThread) -> bool {
    match thread.state {
        WaiterState::Running { phase } => holds_lock(phase) && phase !is Announce,
        WaiterState::Asleep { .. } => true,
        WaiterState::Waking { .. } => false,
    }
}

/// The waiter has the lock and looks, or sleeps already: unless the look succeeds it will be on its
/// way again only when it is notified.
spec fn stays_until_notified(thread: WaiterThread) -> bool {
    match thread.state {
        WaiterState::Running { phase: Phase::AskBarrier { place: Place::Guarded { .. } } } => true,
        WaiterState::Running { phase: Phase::ReadShutdown { place: Place::Guarded { .. } } } => true,
        WaiterState::Running { phase: Phase::Sleep { .. } } => true,
        WaiterState::Asleep { .. } => true,
        _ => false,
    }
}

/// The waiter has looked at the shutdown marker, after the barrier, and not found what it waits
/// for.
spec fn has_read_marker(thread: WaiterThread) -> bool {
    match thread.state {
        WaiterState::Running { phase: Phase::Sleep { .. } } => true,
        WaiterState::Asleep { .. } => true,
        _ => false,
    }
}

/// A waiter that has asked its barrier and not got what it waits for has seen a cell, of so many,
/// that held too little.
spec fn looked_in_vain(thread: WaiterThread, cells: nat) -> bool {
    &&& thread.seen.len() <= cells
    &&& (has_read_marker(thread) || thread.state matches WaiterState::Running {
        phase: Phase::ReadShutdown { .. },
    }) ==> {
        &&& thread.seen.len() == cells
        &&& least(thread.seen) < thread.plan.requested
    }
}

/// Where the least of the values is too little, one of them is.
proof fn lemma_least(values: Seq<Sequence>, requested: Sequence) -> (k: int)
    requires
        least(values) < requested,
    ensures
        0 <= k < values.len(),
        values[k] < requested,
    decreases values.len(),
{
    if values.last() < least(values.drop_last()) {
        values.len() - 1
    } else {
        let k = lemma_least(values.drop_last(), requested);
        assert(values.drop_last()[k] == values[k]);
        k
    }
}

/// Where the least of the values is enough, all of them are.
proof fn lemma_least_is_lower_bound(values: Seq<Sequence>, k: int)
    requires
        0 <= k < values.len(),
    ensures
        least(values) <= values[k],
    decreases values.len(),
{
    if k < values.len() - 1 {
        lemma_least_is_lower_bound(values.drop_last(), k);
        assert(values.drop_last()[k] == values[k]);
    }
}

/// What a barrier of the library gives for the values of its cells is the least of them.
pub proof fn a_barrier_gives_the_least(values: Seq<Sequence>, slowest: Sequence)
    ensures
        is_slowest(values, slowest) <==> slowest == least(values),
    decreases values.len(),
{
    if values.len() > 0 {
        assert forall|i: int| 0 <= i < values.len() implies least(values)
            <= #[trigger] values[i] by {
            lemma_least_is_lower_bound(values, i);
        }
        assert(values.contains(least(values))) by {
            if values.last() < least(values.drop_last()) {
                assert(values[values.len() - 1] == least(values));
            } else if values.len() == 1 {
                assert(values[0] == least(values));
            } else {
                let before = values.drop_last();
                a_barrier_gives_the_least(before, least(before));
                let i = choose|i: int| 0 <= i < before.len() && before[i] == least(before);
                assert(values[i] == least(values));
            }
        }
        if is_slowest(values, slowest) {
            the_slowest_is_unique(values, slowest, least(values));
        }
    }
}

/// A move that changes one waiter and does not touch what the others go by keeps the world sound,
/// given what it has to keep of that one.
proof fn lemma_waiter_moves(before: World, after: World, waiter: int)
    requires
        before.sound(),
        0 <= waiter < before.waiters.len(),
        after.waiters == before.waiters.update(waiter, after.waiters[waiter]),
        after.waiters[waiter].plan.announces == before.announces,
        looked_in_vain(after.waiters[waiter], before.cells[waiter].len()),
        after.announces == before.announces,
        after.cells == before.cells,
        after.shutdown_at == before.shutdown_at,
        after.wakers == before.wakers,
        before.signal_needed ==> after.signal_needed,
        before.holder is None || before.holder == Some(Holder::Waiter(waiter)) || after.holder
            == before.holder,
        after.holder == before.holder || after.holder is None || after.holder == Some(
            Holder::Waiter(waiter),
        ),
        under_lock(after.waiters[waiter]) <==> after.holder == Some(Holder::Waiter(waiter)),
        counts_on_flag(after.waiters[waiter]) && before.announces ==> after.signal_needed
            || counts_on_flag(before.waiters[waiter]),
        after.overlooked(waiter) ==> before.overlooked(waiter),
    ensures
        after.sound(),
{
    assert(after.notification_is_due() == before.notification_is_due());
    assert(after.change_is_new() == before.change_is_new());
    assert forall|other: int| 0 <= other < after.waiters.len() implies (under_lock(
        #[trigger] after.waiters[other],
    ) <==> after.holder == Some(Holder::Waiter(other))) by {
        if other != waiter {
            assert(after.waiters[other] == before.waiters[other]);
        }
    }
    assert forall|waker: int| 0 <= waker < after.wakers.len() implies (has_lock(
        #[trigger] after.wakers[waker],
    ) <==> after.holder == Some(Holder::Waker(waker))) by {
        assert(after.wakers[waker] == before.wakers[waker]);
    }
    assert forall|other: int|
        0 <= other < after.waiters.len() && after.announces && counts_on_flag(
            #[trigger] after.waiters[other],
        ) implies after.signal_needed || after.notification_is_due() by {
        if other != waiter {
            assert(after.waiters[other] == before.waiters[other]);
        } else {
            assert(counts_on_flag(before.waiters[waiter]) || after.signal_needed);
        }
    }
    assert forall|other: int|
        0 <= other < after.waiters.len() && #[trigger] after.overlooked(
            other,
        ) implies after.notification_is_due() || after.change_is_new() by {
        if other != waiter {
            assert(after.waiters[other] == before.waiters[other]);
            lemma_same_overlooked(before, after, other);
        }
    }
    assert forall|other: int| 0 <= other < after.waiters.len() implies {
        &&& (#[trigger] after.waiters[other]).plan.announces == after.announces
        &&& looked_in_vain(after.waiters[other], after.cells[other].len())
    } by {
        if other != waiter {
            assert(after.waiters[other] == before.waiters[other]);
        }
    }
}

/// What a waiter overlooked depends on it, on its cells and on the marker alone.
proof fn lemma_same_overlooked(before: World, after: World, waiter: int)
    requires
        after.waiters[waiter] == before.waiters[waiter],
        after.cells[waiter] == before.cells[waiter],
        after.shutdown_at == before.shutdown_at,
        after.overlooked(waiter),
    ensures
        before.overlooked(waiter),
{
    if exists|k: int| #[trigger] after.cell_has_risen(waiter, k) {
        let k = choose|k: int| #[trigger] after.cell_has_risen(waiter, k);
        assert(before.cell_has_risen(waiter, k));
    }
}

/// A waker that goes from one state to another leaves the others as they are.
proof fn lemma_wakers(before: World, after: World, waker: int)
    requires
        0 <= waker < before.wakers.len(),
        after.wakers == before.wakers.update(waker, after.wakers[waker]),
    ensures
        will_notify(after.wakers[waker]) ==> after.notification_is_due(),
        after.wakers[waker] is Published ==> after.change_is_new(),
        before.notification_is_due() && !will_notify(before.wakers[waker])
            ==> after.notification_is_due(),
        before.change_is_new() && before.wakers[waker] !is Published ==> after.change_is_new(),
{
    if will_notify(after.wakers[waker]) {
        assert(after.notification_is_due());
    }
    if after.wakers[waker] is Published {
        assert(after.change_is_new());
    }
    if before.notification_is_due() && !will_notify(before.wakers[waker]) {
        let other = choose|other: int|
            0 <= other < before.wakers.len() && will_notify(#[trigger] before.wakers[other]);
        assert(after.wakers[other] == before.wakers[other]);
    }
    if before.change_is_new() && before.wakers[waker] !is Published {
        let other = choose|other: int|
            0 <= other < before.wakers.len() && (#[trigger] before.wakers[other]) is Published;
        assert(after.wakers[other] == before.wakers[other]);
    }
}

/// The move of a waker that changes no waiter keeps the lock in order.
proof fn lemma_lock_of_waker(before: World, after: World, waker: int)
    requires
        before.lock_is_consistent(),
        0 <= waker < before.wakers.len(),
        after.waiters == before.waiters,
        after.wakers == before.wakers.update(waker, after.wakers[waker]),
        before.holder is None || before.holder == Some(Holder::Waker(waker)) || after.holder
            == before.holder,
        after.holder == before.holder || after.holder is None || after.holder == Some(
            Holder::Waker(waker),
        ),
        has_lock(after.wakers[waker]) <==> after.holder == Some(Holder::Waker(waker)),
    ensures
        after.lock_is_consistent(),
{
    assert forall|other: int| 0 <= other < after.wakers.len() implies (has_lock(
        #[trigger] after.wakers[other],
    ) <==> after.holder == Some(Holder::Waker(other))) by {
        if other != waker {
            assert(after.wakers[other] == before.wakers[other]);
        }
    }
}

/// The moves of waiters keep the world sound.
proof fn lemma_waiter_keeps_sound(world: World, m: Move)
    requires
        world.sound(),
        world.allows(m),
        m is Act || m is Begin || m is Stir || m is Return,
    ensures
        world.after(m).sound(),
{
    let after = world.after(m);
    let waiter = match m {
        Move::Act { waiter } => waiter,
        Move::Begin { waiter, .. } => waiter,
        Move::Stir { waiter } => waiter,
        Move::Return { waiter } => waiter,
        _ => 0,
    };
    let thread = world.waiters[waiter];
    assert(under_lock(thread) <==> world.holder == Some(Holder::Waiter(waiter)));
    assert(thread.plan.announces == world.announces);
    assert(looked_in_vain(thread, world.cells[waiter].len()));
    if after.overlooked(waiter) {
        if exists|k: int| #[trigger] after.cell_has_risen(waiter, k) {
            let k = choose|k: int| #[trigger] after.cell_has_risen(waiter, k);
            assert(world.cell_has_risen(waiter, k));
        }
    }
    lemma_waiter_moves(world, after, waiter);
}

/// The moves of wakers keep the world sound.
proof fn lemma_waker_keeps_sound(world: World, m: Move)
    requires
        world.sound(),
        world.allows(m),
        !(m is Act || m is Begin || m is Stir || m is Return),
    ensures
        world.after(m).sound(),
{
    let after = world.after(m);
    let waker = match m {
        Move::Publish { waker, .. } => waker,
        Move::Wake { waker } => waker,
        Move::TakeLock { waker } => waker,
        Move::Raise { waker } => waker,
        Move::Notify { waker } => waker,
        Move::Release { waker } => waker,
        _ => 0,
    };
    assert(has_lock(world.wakers[waker]) <==> world.holder == Some(Holder::Waker(waker)));
    lemma_wakers(world, after, waker);
    if m is Notify {
        // The waker has the lock, so no waiter has it, and no waiter sleeps any more.
        assert forall|other: int| 0 <= other < after.waiters.len() implies {
            &&& !under_lock(#[trigger] after.waiters[other])
            &&& after.waiters[other].state !is Asleep
            &&& after.waiters[other].plan.announces == after.announces
            &&& looked_in_vain(after.waiters[other], after.cells[other].len())
        } by {
            assert(looked_in_vain(world.waiters[other], world.cells[other].len()));
            assert(!under_lock(world.waiters[other]));
        }
        assert forall|other: int| 0 <= other < after.wakers.len() implies (has_lock(
            #[trigger] after.wakers[other],
        ) <==> after.holder == Some(Holder::Waker(other))) by {
            if other != waker {
                assert(after.wakers[other] == world.wakers[other]);
            }
        }
        assert forall|other: int|
            0 <= other < after.waiters.len() && #[trigger] after.overlooked(other) implies false by {
            assert(!under_lock(after.waiters[other]));
        }
        assert(after.sound());
    } else {
        lemma_lock_of_waker(world, after, waker);
        assert forall|other: int|
            0 <= other < after.waiters.len() && #[trigger] after.overlooked(
                other,
            ) implies after.notification_is_due() || after.change_is_new() by {
            if !(m is Publish) {
                lemma_same_overlooked(world, after, other);
            }
            assert(counts_on_flag(world.waiters[other]));
        }
        assert(after.sound());
    }
}

/// Every move keeps the world sound.
proof fn lemma_move_keeps_sound(world: World, m: Move)
    requires
        world.sound(),
        world.allows(m),
    ensures
        world.after(m).sound(),
{
    if m is Act || m is Begin || m is Stir || m is Return {
        lemma_waiter_keeps_sound(world, m);
    } else {
        lemma_waker_keeps_sound(world, m);
    }
}

/// What follows from soundness.
proof fn lemma_sound_is_safe(world: World, waiter: int)
    requires
        world.sound(),
        0 <= waiter < world.waiters.len(),
        world.waiters[waiter].state is Asleep,
        world.has_something_to_do(waiter),
    ensures
        world.notification_is_due() || (world.change_is_new() && (world.announces
            ==> world.signal_needed)),
{
    let thread = world.waiters[waiter];
    let cells = world.cells[waiter];
    if least(cells) >= thread.plan.requested {
        let k = lemma_least(thread.seen, thread.plan.requested);
        lemma_least_is_lower_bound(cells, k);
        assert(world.cell_has_risen(waiter, k));
    }
    assert(world.overlooked(waiter));
    assert(counts_on_flag(thread));
}

/// A course of moves, from the beginning on.
pub open spec fn is_course(worlds: Seq<World>, moves: Seq<Move>) -> bool {
    &&& worlds.len() == moves.len() + 1
    &&& worlds[0].begins()
    &&& forall|k: int|
        0 <= k < moves.len() ==> worlds[k].allows(#[trigger] moves[k]) && worlds[k + 1]
            == worlds[k].after(moves[k])
}

/// The world is sound at the beginning.
proof fn lemma_begins_sound(world: World)
    requires
        world.begins(),
    ensures
        world.sound(),
{
    assert forall|waiter: int| 0 <= waiter < world.waiters.len() implies {
        &&& !under_lock(#[trigger] world.waiters[waiter])
        &&& !counts_on_flag(world.waiters[waiter])
    } by {
        assert(world.waiters[waiter].state == WaiterState::Running { phase: first_phase() });
    }
    assert forall|waiter: int| 0 <= waiter < world.waiters.len() implies looked_in_vain(
        #[trigger] world.waiters[waiter],
        world.cells[waiter].len(),
    ) by {
        assert(world.waiters[waiter].state == WaiterState::Running { phase: first_phase() });
    }
    assert forall|waiter: int|
        0 <= waiter < world.waiters.len() && #[trigger] world.overlooked(waiter) implies false by {
        assert(world.waiters[waiter].state == WaiterState::Running { phase: first_phase() });
    }
}

/// Every world of a course is sound.
proof fn lemma_course_is_sound(worlds: Seq<World>, moves: Seq<Move>, k: int)
    requires
        is_course(worlds, moves),
        0 <= k < worlds.len(),
    ensures
        worlds[k].sound(),
    decreases k,
{
    if k == 0 {
        lemma_begins_sound(worlds[0]);
    } else {
        lemma_course_is_sound(worlds, moves, k - 1);
        assert(worlds[k - 1 + 1] == worlds[k - 1].after(moves[k - 1]));
        lemma_move_keeps_sound(worlds[k - 1], moves[k - 1]);
    }
}

/// No wake-up is lost. Whenever a waiter sleeps although what it waits for is there, a waker is on
/// its way to notify it: one that will notify whatever the flag is, or one that is about to look at
/// the flag and will find it up.
pub proof fn no_wakeup_is_lost(worlds: Seq<World>, moves: Seq<Move>, k: int, waiter: int)
    requires
        is_course(worlds, moves),
        0 <= k < worlds.len(),
        0 <= waiter < worlds[k].waiters.len(),
        worlds[k].waiters[waiter].state is Asleep,
        worlds[k].has_something_to_do(waiter),
    ensures
        worlds[k].notification_is_due() || (worlds[k].change_is_new() && (worlds[k].announces
            ==> worlds[k].signal_needed)),
{
    lemma_course_is_sound(worlds, moves, k);
    lemma_sound_is_safe(worlds[k], waiter);
}

/// When every waker is done, nobody sleeps who has something to do.
pub proof fn when_the_wakers_are_done_nobody_oversleeps(
    worlds: Seq<World>,
    moves: Seq<Move>,
    k: int,
    waiter: int,
)
    requires
        is_course(worlds, moves),
        0 <= k < worlds.len(),
        0 <= waiter < worlds[k].waiters.len(),
        forall|waker: int|
            0 <= waker < worlds[k].wakers.len() ==> (#[trigger] worlds[k].wakers[waker]) is Idle
                || worlds[k].wakers[waker] is Notified,
    ensures
        !(worlds[k].waiters[waiter].state is Asleep && worlds[k].has_something_to_do(waiter)),
{
    if worlds[k].waiters[waiter].state is Asleep && worlds[k].has_something_to_do(waiter) {
        no_wakeup_is_lost(worlds, moves, k, waiter);
    }
}

/// The lock does its work: it is never held by two.
pub proof fn the_lock_has_one_holder(worlds: Seq<World>, moves: Seq<Move>, k: int, a: int, b: int)
    requires
        is_course(worlds, moves),
        0 <= k < worlds.len(),
        0 <= a < worlds[k].waiters.len(),
        0 <= b < worlds[k].waiters.len(),
        worlds[k].waiters[a].state matches WaiterState::Running { phase } && holds_lock(phase),
        worlds[k].waiters[b].state matches WaiterState::Running { phase } && holds_lock(phase),
    ensures
        a == b,
{
    lemma_course_is_sound(worlds, moves, k);
    assert(under_lock(worlds[k].waiters[a]) && under_lock(worlds[k].waiters[b]));
}

/// A notification reaches every sleeper, and whoever was reached looks again before it can sleep
/// again, whatever the counter is when it has the lock back.
pub proof fn a_notification_reaches_every_sleeper(world: World, waker: int, waiter: int, now: u64)
    requires
        world.allows(Move::Notify { waker }),
        0 <= waiter < world.waiters.len(),
        world.waiters[waiter].state is Asleep,
    ensures
        world.after(Move::Notify { waker }).waiters[waiter].state matches WaiterState::Waking { epoch }
            && {
            let phase = after_sleep(world.waiters[waiter].plan, epoch, now);
            phase is AskBarrier || (phase matches Phase::Announce { epoch: at } && after_announce(
                at,
            ) is AskBarrier)
        },
{
}

/// A waiter of the model goes by the accesses of a blocking waiter's record: what an access leads to
/// there is what the move leads to here, if the access gave what the world holds.
pub proof fn a_waiter_moves_as_its_record_tells(world: World, waiter: int, access: Access)
    requires
        world.allows(Move::Act { waiter }),
        world.waiters[waiter].state matches WaiterState::Running { phase } && {
            &&& next_phase(world.waiters[waiter].plan, phase, access) is Some
            &&& phase !is Sleep
        },
        match access {
            Access::Barrier { available, .. } => {
                &&& world.waiters[waiter].seen.len() == world.cells[waiter].len()
                &&& available == least(world.waiters[waiter].seen)
            },
            Access::Marker { shutdown_at, .. } => shutdown_at == world.shutdown_at,
            Access::Lock { epoch } => epoch == world.epoch,
            _ => true,
        },
    ensures
        world.after(Move::Act { waiter }).waiters[waiter].state matches WaiterState::Running {
            phase: after,
        } && world.waiters[waiter].state matches WaiterState::Running { phase: before }
            && next_phase(world.waiters[waiter].plan, before, access) == Some(after),
        access is Announcement ==> world.after(Move::Act { waiter }).signal_needed,
{
}

/// A waiter of the model that sleeps comes back as the record of a blocking waiter tells, if the
/// counter is what the sleeper found.
pub proof fn a_sleeper_returns_as_its_record_tells(world: World, waiter: int, epoch: u64, now: u64)
    requires
        world.allows(Move::Return { waiter }),
        world.waiters[waiter].state == (WaiterState::Waking { epoch }),
        now == world.epoch,
    ensures
        world.after(Move::Return { waiter }).waiters[waiter].state matches WaiterState::Running {
            phase: after,
        } && next_phase(
            world.waiters[waiter].plan,
            Phase::Sleep { epoch },
            Access::Sleep { now },
        ) == Some(after),
{
}

/// A waker of the model does what a wake is recorded to do, in the same order.
pub proof fn a_waker_moves_as_a_wake_is_recorded(world: World, waker: int, log: Seq<Ring>)
    requires
        world.allows(Move::Wake { waker }),
        rung(world.announces, log),
        log[0] matches Ring::Taken { raised } ==> raised == world.signal_needed,
    ensures
        if world.announces && !world.signal_needed {
            &&& log == seq![Ring::Taken { raised: false }]
            &&& world.after(Move::Wake { waker }).wakers[waker] is Idle
        } else {
            let start = if world.announces {
                1int
            } else {
                0int
            };
            &&& log.len() == start + 3
            &&& world.after(Move::Wake { waker }).wakers[waker] is Committed
            &&& log[start] matches Ring::Lock { epoch } && log[start + 1] == (Ring::Count {
                epoch: next_epoch(epoch),
            })
            &&& log[start + 2] is Notification
        },
{
    if world.announces && log == seq![Ring::Taken { raised: false }] {
        assert(log[0] == Ring::Taken { raised: false });
    } else {
        let flag = if world.announces {
            seq![Ring::Taken { raised: true }]
        } else {
            Seq::empty()
        };
        let epoch = choose|epoch: u64|
            #![trigger next_epoch(epoch)]
            log == flag + seq![
                Ring::Lock { epoch },
                Ring::Count { epoch: next_epoch(epoch) },
                Ring::Notification,
            ];
        if world.announces {
            assert(log[0] == Ring::Taken { raised: true });
        }
        assert(log[flag.len() as int] == Ring::Lock { epoch });
    }
}

} // verus!
