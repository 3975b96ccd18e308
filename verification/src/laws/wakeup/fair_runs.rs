//! The laws that wakes and waits return in a fair run, whatever else goes on in it.
//!
//! A run never ends, and a thread that can go on again and again does go on in it some time. Others
//! may publish, begin to wait and wake up for no reason without end.

use crate::laws::wakeup::returning::{
    goes_on, has_returned, lemma_waiter_has_less_left, wait_moves, wake_moves,
};
use crate::laws::wakeup::{
    has_lock, least, lemma_begins_sound, lemma_least, lemma_least_is_lower_bound,
    lemma_move_keeps_sound, lemma_sound_is_safe, under_lock, will_notify, Holder, Move,
    WaiterState, WaiterThread, World,
};
use crate::wait_strategies::blocking::Phase;
use crate::Sequence;
use vstd::prelude::*;

verus! {

/// A run of all threads of one strategy.
pub struct Run {
    /// What there is after so many instants.
    pub worlds: spec_fn(nat) -> World,
    /// The move that is made at the instant, if one is made.
    pub moves: spec_fn(nat) -> Option<Move>,
}

/// The thread that makes the move.
pub open spec fn mover(m: Move) -> Holder {
    match m {
        Move::Act { waiter } => Holder::Waiter(waiter),
        Move::Begin { waiter, .. } => Holder::Waiter(waiter),
        Move::Stir { waiter } => Holder::Waiter(waiter),
        Move::Return { waiter } => Holder::Waiter(waiter),
        Move::Publish { waker, .. } => Holder::Waker(waker),
        Move::Wake { waker } => Holder::Waker(waker),
        Move::TakeLock { waker } => Holder::Waker(waker),
        Move::Raise { waker } => Holder::Waker(waker),
        Move::Notify { waker } => Holder::Waker(waker),
        Move::Release { waker } => Holder::Waker(waker),
    }
}

/// The thread can go on with what it has begun.
pub open spec fn can_go_on(world: World, thread: Holder) -> bool {
    exists|m: Move| goes_on(m) && mover(m) == thread && #[trigger] world.allows(m)
}

impl Run {
    /// What there is at the instant.
    pub open spec fn at(self, n: nat) -> World {
        (self.worlds)(n)
    }

    /// What there is at the next instant follows from the move.
    pub open spec fn follows(self, n: nat) -> bool {
        match (self.moves)(n) {
            Some(m) => self.at(n).allows(m) && self.at(n + 1) == self.at(n).after(m),
            None => self.at(n + 1) == self.at(n),
        }
    }

    /// The run begins at the beginning, and each instant follows from the one before it.
    pub open spec fn is_run(self) -> bool {
        &&& self.at(0).begins()
        &&& forall|n: nat| #[trigger] self.follows(n)
    }

    /// The thread goes on at the instant.
    pub open spec fn goes_on_at(self, thread: Holder, n: nat) -> bool {
        (self.moves)(n) matches Some(m) && goes_on(m) && mover(m) == thread
    }

    /// The thread can go on some time from the instant on.
    pub open spec fn can_go_on_from(self, thread: Holder, n: nat) -> bool {
        exists|j: nat| j >= n && can_go_on(#[trigger] self.at(j), thread)
    }

    /// The thread can go on again and again from the instant on.
    pub open spec fn can_go_on_again_and_again(self, thread: Holder, n: nat) -> bool {
        forall|m: nat| m >= n ==> #[trigger] self.can_go_on_from(thread, m)
    }

    /// The thread goes on some time from the instant on.
    pub open spec fn goes_on_from(self, thread: Holder, n: nat) -> bool {
        exists|j: nat| j >= n && #[trigger] self.goes_on_at(thread, j)
    }

    /// A thread that can go on again and again goes on some time.
    pub open spec fn is_fair(self) -> bool {
        forall|thread: Holder, n: nat| #[trigger]
            self.can_go_on_again_and_again(thread, n) ==> self.goes_on_from(thread, n)
    }

    /// The waiter has returned at the instant.
    pub open spec fn returned(self, waiter: int, n: nat) -> bool {
        has_returned(self.at(n).waiters[waiter])
    }

    /// The waker has returned at the instant.
    pub open spec fn is_idle(self, waker: int, n: nat) -> bool {
        self.at(n).wakers[waker] is Idle
    }
}

/// Every instant of a run is sound.
proof fn lemma_run_is_sound(run: Run, n: nat)
    requires
        run.is_run(),
    ensures
        run.at(n).sound(),
    decreases n,
{
    if n == 0 {
        lemma_begins_sound(run.at(0));
    } else {
        let before = (n - 1) as nat;
        lemma_run_is_sound(run, before);
        assert(run.follows(before));
        if let Some(m) = (run.moves)(before) {
            lemma_move_keeps_sound(run.at(before), m);
        }
    }
}

/// The thread exists.
spec fn exists_in(world: World, thread: Holder) -> bool {
    match thread {
        Holder::Waiter(waiter) => 0 <= waiter < world.waiters.len(),
        Holder::Waker(waker) => 0 <= waker < world.wakers.len(),
    }
}

/// The thread has begun something that it can go on with, if need be when it gets the lock.
spec fn is_busy(world: World, thread: Holder) -> bool {
    &&& exists_in(world, thread)
    &&& match thread {
        Holder::Waiter(waiter) => match world.waiters[waiter].state {
            WaiterState::Running { phase } => phase !is Done,
            WaiterState::Asleep { .. } => false,
            WaiterState::Waking { .. } => true,
        },
        Holder::Waker(waker) => world.wakers[waker] !is Idle,
    }
}

/// The thread is in the same state in both worlds, and the barrier of a waiter has as many cells.
spec fn stands_alike(a: World, b: World, thread: Holder) -> bool {
    &&& exists_in(b, thread)
    &&& match thread {
        Holder::Waiter(waiter) => {
            &&& a.waiters[waiter] == b.waiters[waiter]
            &&& a.cells[waiter].len() == b.cells[waiter].len()
        },
        Holder::Waker(waker) => a.wakers[waker] == b.wakers[waker],
    }
    &&& a.holder == Some(thread) ==> b.holder == Some(thread)
}

/// A busy thread stays as it is where another moves, or where it does not go on itself.
proof fn lemma_stands_still(world: World, m: Move, thread: Holder)
    requires
        world.sound(),
        world.allows(m),
        is_busy(world, thread),
        !(goes_on(m) && mover(m) == thread),
    ensures
        stands_alike(world, world.after(m), thread),
{
    if world.holder == Some(thread) && mover(m) != thread {
        // Nobody else can take the lock or give it back.
        match mover(m) {
            Holder::Waiter(waiter) => {
                assert(!under_lock(world.waiters[waiter]));
            },
            Holder::Waker(waker) => {
                assert(!has_lock(world.wakers[waker]));
            },
        }
    }
}

/// A busy thread stays as it is until it goes on.
proof fn lemma_stands_still_until(run: Run, thread: Holder, n: nat, j: nat)
    requires
        run.is_run(),
        n <= j,
        is_busy(run.at(n), thread),
        forall|i: nat| n <= i < j ==> !#[trigger] run.goes_on_at(thread, i),
    ensures
        stands_alike(run.at(n), run.at(j), thread),
    decreases j - n,
{
    if n < j {
        let before = (j - 1) as nat;
        lemma_stands_still_until(run, thread, n, before);
        lemma_run_is_sound(run, before);
        assert(run.follows(before));
        assert(!run.goes_on_at(thread, before));
        if let Some(m) = (run.moves)(before) {
            lemma_stands_still(run.at(before), m, thread);
        }
    }
}

/// The first instant from `n` on at which the thread goes on, if it does so at `j`.
proof fn lemma_first_time(run: Run, thread: Holder, n: nat, j: nat) -> (first: nat)
    requires
        n <= j,
        run.goes_on_at(thread, j),
    ensures
        n <= first,
        run.goes_on_at(thread, first),
        forall|i: nat| n <= i < first ==> !#[trigger] run.goes_on_at(thread, i),
    decreases j - n,
{
    if run.goes_on_at(thread, n) {
        n
    } else {
        lemma_first_time(run, thread, n + 1, j)
    }
}

/// The lock is free some time from the instant on.
spec fn lock_is_free_from(run: Run, n: nat) -> bool {
    exists|j: nat| j >= n && (#[trigger] run.at(j)).holder is None
}

/// A busy thread that has the lock, or does not need it, can go on, and so can any busy thread while
/// the lock is free.
proof fn lemma_can_go_on(world: World, thread: Holder)
    requires
        world.sound(),
        is_busy(world, thread),
        world.holder is None || world.holder == Some(thread),
    ensures
        can_go_on(world, thread),
{
    match thread {
        Holder::Waiter(waiter) => {
            if world.waiters[waiter].state is Waking {
                assert(!under_lock(world.waiters[waiter]));
                assert(world.allows(Move::Return { waiter }));
            } else {
                assert(under_lock(world.waiters[waiter]) <==> world.holder == Some(thread));
                assert(world.allows(Move::Act { waiter }));
            }
        },
        Holder::Waker(waker) => {
            assert(has_lock(world.wakers[waker]) <==> world.holder == Some(thread));
            assert(world.allows(Move::Wake { waker }) || world.allows(Move::TakeLock { waker })
                || world.allows(Move::Raise { waker }) || world.allows(Move::Notify { waker })
                || world.allows(Move::Release { waker }));
        },
    }
}

/// A busy thread goes on some time, if it has the lock or the lock is free again and again.
proof fn lemma_busy_goes_on(run: Run, thread: Holder, n: nat) -> (j: nat)
    requires
        run.is_run(),
        run.is_fair(),
        is_busy(run.at(n), thread),
        run.at(n).holder == Some(thread) || forall|m: nat|
            m >= n ==> #[trigger] lock_is_free_from(run, m),
    ensures
        n <= j,
        run.goes_on_at(thread, j),
        stands_alike(run.at(n), run.at(j), thread),
        is_busy(run.at(j), thread),
{
    if !run.goes_on_from(thread, n) {
        assert forall|m: nat| m >= n implies #[trigger] run.can_go_on_from(thread, m) by {
            let j = if run.at(n).holder == Some(thread) {
                m
            } else {
                assert(lock_is_free_from(run, m));
                choose|j: nat| j >= m && (#[trigger] run.at(j)).holder is None
            };
            assert forall|i: nat| n <= i < j implies !#[trigger] run.goes_on_at(thread, i) by {}
            lemma_stands_still_until(run, thread, n, j);
            lemma_run_is_sound(run, j);
            lemma_can_go_on(run.at(j), thread);
        }
        assert(run.can_go_on_again_and_again(thread, n));
    }
    let some = choose|j: nat| j >= n && #[trigger] run.goes_on_at(thread, j);
    let first = lemma_first_time(run, thread, n, some);
    lemma_stands_still_until(run, thread, n, first);
    first
}

/// How many moves the thread has left before it returns or sleeps.
spec fn own_moves(world: World, thread: Holder) -> nat {
    match thread {
        Holder::Waiter(waiter) => wait_moves(world.waiters[waiter], world.cells[waiter].len()),
        Holder::Waker(waker) => wake_moves(world.wakers[waker]),
    }
}

/// A thread that goes on has less left than before, and keeps the lock or gives it back if it had
/// it.
proof fn lemma_less_left(world: World, m: Move, thread: Holder)
    requires
        world.sound(),
        world.allows(m),
        goes_on(m),
        mover(m) == thread,
    ensures
        own_moves(world.after(m), thread) < own_moves(world, thread),
        world.holder == Some(thread) ==> world.after(m).holder is None || world.after(m).holder
            == Some(thread),
{
    match thread {
        Holder::Waiter(waiter) => {
            lemma_waiter_has_less_left(world, waiter, m);
            assert(under_lock(world.waiters[waiter]) <==> world.holder == Some(thread));
        },
        Holder::Waker(_) => {},
    }
}

/// The lock is free some time.
proof fn lemma_lock_is_freed(run: Run, n: nat)
    requires
        run.is_run(),
        run.is_fair(),
    ensures
        lock_is_free_from(run, n),
    decreases
            match run.at(n).holder {
                Some(thread) => own_moves(run.at(n), thread),
                None => 0,
            },
{
    lemma_run_is_sound(run, n);
    match run.at(n).holder {
        None => {},
        Some(thread) => {
            match thread {
                Holder::Waiter(waiter) => assert(under_lock(run.at(n).waiters[waiter])),
                Holder::Waker(waker) => assert(has_lock(run.at(n).wakers[waker])),
            }
            let j = lemma_busy_goes_on(run, thread, n);
            lemma_run_is_sound(run, j);
            assert(run.follows(j));
            lemma_less_left(run.at(j), (run.moves)(j)->0, thread);
            lemma_lock_is_freed(run, j + 1);
            let free = choose|i: nat| i >= j + 1 && (#[trigger] run.at(i)).holder is None;
            assert(free >= n);
        },
    }
}

/// A busy thread goes on some time.
proof fn lemma_goes_on(run: Run, thread: Holder, n: nat) -> (j: nat)
    requires
        run.is_run(),
        run.is_fair(),
        is_busy(run.at(n), thread),
    ensures
        n <= j,
        run.goes_on_at(thread, j),
        run.at(j).sound(),
        run.at(j).allows((run.moves)(j)->0),
        run.at(j + 1) == run.at(j).after((run.moves)(j)->0),
        stands_alike(run.at(n), run.at(j), thread),
        is_busy(run.at(j), thread),
        own_moves(run.at(j + 1), thread) < own_moves(run.at(n), thread),
{
    assert forall|m: nat| m >= n implies #[trigger] lock_is_free_from(run, m) by {
        lemma_lock_is_freed(run, m);
    }
    let j = lemma_busy_goes_on(run, thread, n);
    lemma_run_is_sound(run, j);
    assert(run.follows(j));
    lemma_less_left(run.at(j), (run.moves)(j)->0, thread);
    j
}

/// Every wake returns, also where the counter starts anew.
pub proof fn every_wake_returns(run: Run, waker: int, n: nat)
    requires
        run.is_run(),
        run.is_fair(),
        0 <= waker < run.at(n).wakers.len(),
    ensures
        exists|j: nat| j >= n && #[trigger] run.is_idle(waker, j),
    decreases wake_moves(run.at(n).wakers[waker]),
{
    if run.at(n).wakers[waker] is Idle {
        assert(run.is_idle(waker, n));
    } else {
        let j = lemma_goes_on(run, Holder::Waker(waker), n);
        every_wake_returns(run, waker, j + 1);
        let idle = choose|i: nat| i >= j + 1 && #[trigger] run.is_idle(waker, i);
        assert(idle >= n && run.is_idle(waker, idle));
    }
}

/// A waker that will notify the sleepers does so some time.
proof fn lemma_notifies(run: Run, waker: int, n: nat) -> (j: nat)
    requires
        run.is_run(),
        run.is_fair(),
        0 <= waker < run.at(n).wakers.len(),
        will_notify(run.at(n).wakers[waker]),
    ensures
        n <= j,
        run.at(j).allows(Move::Notify { waker }),
        run.at(j + 1) == run.at(j).after(Move::Notify { waker }),
    decreases wake_moves(run.at(n).wakers[waker]),
{
    let j = lemma_goes_on(run, Holder::Waker(waker), n);
    if (run.moves)(j) == Some(Move::Notify { waker }) {
        j
    } else {
        lemma_notifies(run, waker, j + 1)
    }
}

/// A move leaves a sleeper asleep or gets it to wake, and changes nothing else of it.
proof fn lemma_sleeper(world: World, m: Move, waiter: int)
    requires
        world.allows(m),
        0 <= waiter < world.waiters.len(),
        world.cells.len() == world.waiters.len(),
        world.waiters[waiter].state is Asleep,
    ensures
        world.after(m).waiters[waiter] == world.waiters[waiter] || (
        world.after(m).waiters[waiter].state is Waking && world.after(m).waiters[waiter].plan
            == world.waiters[waiter].plan),
        world.after(m).waiters.len() == world.waiters.len(),
        world.after(m).cells[waiter].len() == world.cells[waiter].len(),
{
}

/// The waiter sleeps on, since the instant `n` at which it slept.
spec fn sleeps_on(run: Run, waiter: int, n: nat, j: nat) -> bool {
    &&& run.at(j).waiters.len() == run.at(n).waiters.len()
    &&& run.at(j).waiters[waiter] == run.at(n).waiters[waiter]
    &&& run.at(j).cells[waiter].len() == run.at(n).cells[waiter].len()
}

/// The waiter, which slept at the instant `n`, has just been woken.
spec fn is_woken(run: Run, waiter: int, n: nat, j: nat) -> bool {
    &&& j > n
    &&& run.at(j).waiters.len() == run.at(n).waiters.len()
    &&& run.at(j).waiters[waiter].state is Waking
    &&& run.at(j).waiters[waiter].plan == run.at(n).waiters[waiter].plan
    &&& run.at(j).cells[waiter].len() == run.at(n).cells[waiter].len()
}

/// A sleeper sleeps on unless it is woken.
proof fn lemma_sleeps_on_or_is_woken(run: Run, waiter: int, n: nat, j: nat)
    requires
        run.is_run(),
        0 <= waiter < run.at(n).waiters.len(),
        run.at(n).waiters[waiter].state is Asleep,
        n <= j,
    ensures
        sleeps_on(run, waiter, n, j) || exists|i: nat| #[trigger] is_woken(run, waiter, n, i),
    decreases j - n,
{
    if n < j {
        let before = (j - 1) as nat;
        lemma_sleeps_on_or_is_woken(run, waiter, n, before);
        lemma_run_is_sound(run, before);
        assert(run.follows(before));
        if sleeps_on(run, waiter, n, before) {
            if let Some(m) = (run.moves)(before) {
                lemma_sleeper(run.at(before), m, waiter);
            }
            assert(sleeps_on(run, waiter, n, j) || is_woken(run, waiter, n, j));
        }
    }
}

/// A sleeper is woken if a waker will notify the sleepers.
proof fn lemma_woken_by(run: Run, waiter: int, n: nat, waker: int, from: nat)
    requires
        run.is_run(),
        run.is_fair(),
        0 <= waiter < run.at(n).waiters.len(),
        run.at(n).waiters[waiter].state is Asleep,
        n <= from,
        0 <= waker < run.at(from).wakers.len(),
        will_notify(run.at(from).wakers[waker]),
    ensures
        exists|i: nat| #[trigger] is_woken(run, waiter, n, i),
{
    let j = lemma_notifies(run, waker, from);
    lemma_sleeps_on_or_is_woken(run, waiter, n, j + 1);
    if sleeps_on(run, waiter, n, j + 1) {
        assert(run.at(j + 1).waiters[waiter].state !is Asleep);
    }
}

/// A sleeper that has something to do as long as it sleeps is woken.
proof fn lemma_is_woken(run: Run, waiter: int, n: nat)
    requires
        run.is_run(),
        run.is_fair(),
        0 <= waiter < run.at(n).waiters.len(),
        run.at(n).waiters[waiter].state is Asleep,
        forall|j: nat|
            j >= n && sleeps_on(run, waiter, n, j) ==> (#[trigger] run.at(j)).has_something_to_do(
                waiter,
            ),
    ensures
        exists|i: nat| #[trigger] is_woken(run, waiter, n, i),
{
    lemma_run_is_sound(run, n);
    let world = run.at(n);
    assert(sleeps_on(run, waiter, n, n));
    lemma_sound_is_safe(world, waiter);
    if world.notification_is_due() {
        let waker = choose|waker: int|
            0 <= waker < world.wakers.len() && will_notify(#[trigger] world.wakers[waker]);
        lemma_woken_by(run, waiter, n, waker, n);
    } else {
        let waker = choose|waker: int|
            0 <= waker < world.wakers.len() && (#[trigger] world.wakers[waker]) is Published;
        let j = lemma_goes_on(run, Holder::Waker(waker), n);
        lemma_sleeps_on_or_is_woken(run, waiter, n, j);
        if sleeps_on(run, waiter, n, j) {
            let then = run.at(j);
            lemma_sound_is_safe(then, waiter);
            if then.notification_is_due() {
                let other = choose|other: int|
                    0 <= other < then.wakers.len() && will_notify(#[trigger] then.wakers[other]);
                lemma_woken_by(run, waiter, n, other, j);
            } else {
                assert((run.moves)(j) == Some(Move::Wake { waker }));
                assert(run.at(j + 1).wakers[waker] is Committed);
                lemma_woken_by(run, waiter, n, waker, j + 1);
            }
        }
    }
}

/// What the waiter waits for is there: its barrier gives it, or else the shutdown marker.
pub open spec fn is_there(
    world: World,
    waiter: int,
    requested: Sequence,
    by_barrier: bool,
) -> bool {
    if by_barrier {
        least(world.cells[waiter]) >= requested
    } else {
        world.shutdown_at == requested
    }
}

/// All that the barrier of the waiter has read so far was enough.
spec fn has_seen_enough(thread: WaiterThread) -> bool {
    forall|i: int|
        0 <= i < thread.seen.len() ==> #[trigger] thread.seen[i] >= thread.plan.requested
}

/// How many moves the waiter has left before it returns, if what it waits for is there and stays.
spec fn moves_to_return(thread: WaiterThread, cells: nat, by_barrier: bool) -> nat {
    match thread.state {
        WaiterState::Running { phase } => match phase {
            Phase::AskBarrier { .. } => {
                let unread = if thread.seen.len() < cells {
                    (cells - thread.seen.len()) as nat
                } else {
                    0
                };
                if !by_barrier || has_seen_enough(thread) {
                    unread + 2
                } else {
                    unread + cells + 10
                }
            },
            Phase::Fence { .. } => 1,
            Phase::ReadShutdown { .. } => if by_barrier {
                cells + 9
            } else {
                1
            },
            Phase::Spin { .. } => cells + 5,
            Phase::Lock => cells + 4,
            Phase::Announce { .. } => cells + 3,
            Phase::Sleep { .. } => cells + 8,
            Phase::Done { .. } => 0,
        },
        WaiterState::Asleep { .. } => cells + 7,
        WaiterState::Waking { .. } => cells + 6,
    }
}

/// A waiter that goes on while what it waits for is there gets nearer to its return.
proof fn lemma_nearer_to_return(world: World, m: Move, waiter: int, by_barrier: bool)
    requires
        world.sound(),
        world.allows(m),
        m == (Move::Act { waiter }) || m == (Move::Return { waiter }),
        is_there(world, waiter, world.waiters[waiter].plan.requested, by_barrier),
    ensures
        moves_to_return(world.after(m).waiters[waiter], world.cells[waiter].len(), by_barrier)
            < moves_to_return(world.waiters[waiter], world.cells[waiter].len(), by_barrier),
        world.after(m).waiters.len() == world.waiters.len(),
        world.after(m).waiters[waiter].plan == world.waiters[waiter].plan,
        world.after(m).cells == world.cells,
{
    let thread = world.waiters[waiter];
    let cells = world.cells[waiter];
    let next = world.after(m).waiters[waiter];
    if let WaiterState::Running { phase: Phase::AskBarrier { place } } = thread.state {
        if thread.seen.len() < cells.len() {
            if by_barrier {
                lemma_least_is_lower_bound(cells, thread.seen.len() as int);
                if has_seen_enough(thread) {
                    assert(has_seen_enough(next));
                }
            }
        } else if by_barrier && has_seen_enough(thread) && least(thread.seen)
            < thread.plan.requested {
            let i = lemma_least(thread.seen, thread.plan.requested);
            assert(thread.seen[i] >= thread.plan.requested);
        }
    }
}

/// A wait returns if what it waits for is there and stays.
proof fn lemma_wait_returns(
    run: Run,
    waiter: int,
    requested: Sequence,
    by_barrier: bool,
    n: nat,
) -> (j: nat)
    requires
        run.is_run(),
        run.is_fair(),
        0 <= waiter < run.at(n).waiters.len(),
        run.at(n).waiters[waiter].plan.requested == requested,
        forall|i: nat| i >= n ==> is_there(#[trigger] run.at(i), waiter, requested, by_barrier),
    ensures
        j >= n,
        run.returned(waiter, j),
    decreases
            moves_to_return(
                run.at(n).waiters[waiter],
                run.at(n).cells[waiter].len(),
                by_barrier,
            ),
{
    if run.returned(waiter, n) {
        n
    } else if run.at(n).waiters[waiter].state is Asleep {
        lemma_is_woken(run, waiter, n);
        let i = choose|i: nat| #[trigger] is_woken(run, waiter, n, i);
        lemma_wait_returns(run, waiter, requested, by_barrier, i)
    } else {
        let i = lemma_goes_on(run, Holder::Waiter(waiter), n);
        lemma_nearer_to_return(run.at(i), (run.moves)(i)->0, waiter, by_barrier);
        lemma_wait_returns(run, waiter, requested, by_barrier, i + 1)
    }
}

/// Every wait returns whose barrier gives what it asks for from some instant on, or to which the
/// shutdown marker shows from some instant on that it is shut down. It does so wherever the waiter
/// stands at that instant, be it spinning, asleep or on its way to sleep, and however many others
/// wait, publish and wake at the same time.
pub proof fn every_wait_with_something_to_do_returns(
    run: Run,
    waiter: int,
    requested: Sequence,
    n: nat,
)
    requires
        run.is_run(),
        run.is_fair(),
        0 <= waiter < run.at(n).waiters.len(),
        run.at(n).waiters[waiter].plan.requested == requested,
        (forall|i: nat| i >= n ==> is_there(#[trigger] run.at(i), waiter, requested, true)) || (
        forall|i: nat| i >= n ==> is_there(#[trigger] run.at(i), waiter, requested, false)),
    ensures
        exists|j: nat| j >= n && #[trigger] run.returned(waiter, j),
{
    let by_barrier = forall|i: nat|
        i >= n ==> is_there(#[trigger] run.at(i), waiter, requested, true);
    let j = lemma_wait_returns(run, waiter, requested, by_barrier, n);
    assert(run.returned(waiter, j));
}

} // verus!
