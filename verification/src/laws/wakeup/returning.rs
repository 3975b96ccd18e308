//! The laws of coming to rest.
//!
//! They are about what happens once nothing more is published, no waiter begins another wait and
//! none wakes up of its own accord. The threads can then make only so many moves, and when none is
//! left to be made every waker is through, and so is every waiter that has something to do.

use crate::laws::wakeup::{
    is_course, lemma_course_is_sound, lemma_sound_is_safe, under_lock, Holder, Move, WaiterState,
    WaiterThread, WakerState, World,
};
use crate::wait_strategies::blocking::{Phase, Place, Plan};
use vstd::prelude::*;

verus! {

/// The move goes on with what was begun.
pub open spec fn goes_on(m: Move) -> bool {
    !(m is Publish || m is Begin || m is Stir)
}

/// Nothing that was begun can go on.
pub open spec fn is_at_rest(world: World) -> bool {
    forall|m: Move| goes_on(m) ==> !#[trigger] world.allows(m)
}

/// The waiter has returned.
pub open spec fn has_returned(thread: WaiterThread) -> bool {
    thread.state matches WaiterState::Running { phase } && phase is Done
}

/// The sum of the numbers.
pub open spec fn sum(numbers: Seq<nat>) -> nat
    decreases numbers.len(),
{
    if numbers.len() == 0 {
        0
    } else {
        sum(numbers.drop_last()) + numbers.last()
    }
}

/// How many moves a waker has left.
pub open spec fn wake_moves(state: WakerState) -> nat {
    match state {
        WakerState::Idle => 0,
        WakerState::Published => 5,
        WakerState::Committed => 4,
        WakerState::Locked => 3,
        WakerState::Raised => 2,
        WakerState::Notified => 1,
    }
}

/// How many moves so many tries in the spin window take, if the barrier has so many cells.
pub open spec fn window_moves(tries: nat, cells: nat) -> nat
    decreases tries,
{
    if tries == 0 {
        0
    } else {
        window_moves((tries - 1) as nat, cells) + cells + 3
    }
}

/// How many tries come after this one.
pub open spec fn tries_after(left: u32) -> nat {
    if left > 0 {
        (left - 1) as nat
    } else {
        0
    }
}

/// How many moves a waiter has left after a look in the place before it sleeps or returns.
pub open spec fn moves_after_look(plan: Plan, place: Place, cells: nat) -> nat {
    match place {
        Place::Round => window_moves(plan.spin_tries as nat, cells) + cells + 5,
        Place::Window { left } => 1 + window_moves(tries_after(left), cells) + cells + 5,
        Place::Guarded { .. } => 1,
    }
}

/// How many moves a waiter has left before it sleeps or returns, if its barrier has so many cells.
pub open spec fn wait_moves(thread: WaiterThread, cells: nat) -> nat {
    match thread.state {
        WaiterState::Running { phase } => match phase {
            Phase::AskBarrier { place } => {
                let unread = if thread.seen.len() < cells {
                    (cells - thread.seen.len()) as nat
                } else {
                    0
                };
                unread + 2 + moves_after_look(thread.plan, place, cells)
            },
            Phase::Fence { .. } => 1,
            Phase::ReadShutdown { place } => 1 + moves_after_look(thread.plan, place, cells),
            Phase::Spin { left } => 1 + window_moves(tries_after(left), cells) + cells + 5,
            Phase::Lock => cells + 5,
            Phase::Announce { .. } => cells + 4,
            Phase::Sleep { .. } => 1,
            Phase::Done { .. } => 0,
        },
        WaiterState::Asleep { .. } => 0,
        WaiterState::Waking { .. } => round_moves(thread.plan, cells),
    }
}

/// How many moves a waiter that was notified has left before it sleeps again or returns.
pub open spec fn round_moves(plan: Plan, cells: nat) -> nat {
    cells + 3 + moves_after_look(plan, Place::Round, cells)
}

impl World {
    /// How many moves each waker has left.
    pub open spec fn all_wake_moves(self) -> Seq<nat> {
        Seq::new(self.wakers.len(), |i: int| wake_moves(self.wakers[i]))
    }

    /// How many moves each waiter has left before it sleeps or returns.
    pub open spec fn all_wait_moves(self) -> Seq<nat> {
        Seq::new(self.waiters.len(), |i: int| wait_moves(self.waiters[i], self.cells[i].len()))
    }

    /// How many moves each waiter has if it is notified.
    pub open spec fn all_round_moves(self) -> Seq<nat> {
        Seq::new(
            self.waiters.len(),
            |i: int| round_moves(self.waiters[i].plan, self.cells[i].len()),
        )
    }

    /// So many moves can be made at most with what was begun. Each move of a waker may get every
    /// waiter to look once more.
    pub open spec fn moves_left(self) -> nat {
        sum(self.all_wake_moves()) * (sum(self.all_round_moves()) + 1) + sum(self.all_wait_moves())
    }
}

/// The sum of the numbers, one of which has changed.
proof fn lemma_sum_of_changed(numbers: Seq<nat>, i: int, number: nat)
    requires
        0 <= i < numbers.len(),
    ensures
        sum(numbers.update(i, number)) + numbers[i] == sum(numbers) + number,
    decreases numbers.len(),
{
    let changed = numbers.update(i, number);
    if i < numbers.len() - 1 {
        lemma_sum_of_changed(numbers.drop_last(), i, number);
        assert(changed.drop_last() == numbers.drop_last().update(i, number));
    } else {
        assert(changed.drop_last() == numbers.drop_last());
    }
}

/// Numbers that have grown by no more than others are have a sum that has grown by no more.
proof fn lemma_sum_of_grown(numbers: Seq<nat>, grown: Seq<nat>, by: Seq<nat>)
    requires
        numbers.len() == grown.len() == by.len(),
        forall|i: int| 0 <= i < numbers.len() ==> #[trigger] grown[i] <= numbers[i] + by[i],
    ensures
        sum(grown) <= sum(numbers) + sum(by),
    decreases numbers.len(),
{
    if numbers.len() > 0 {
        lemma_sum_of_grown(numbers.drop_last(), grown.drop_last(), by.drop_last());
    }
}

/// A waiter that moves has less left than before.
pub(super) proof fn lemma_waiter_has_less_left(world: World, waiter: int, m: Move)
    requires
        world.allows(m),
        m == (Move::Act { waiter }) || m == (Move::Return { waiter }),
    ensures
        wait_moves(world.after(m).waiters[waiter], world.cells[waiter].len()) < wait_moves(
            world.waiters[waiter],
            world.cells[waiter].len(),
        ),
{
    let thread = world.waiters[waiter];
    let cells = world.cells[waiter].len();
    let next = world.after(m).waiters[waiter];
    if let WaiterState::Running { phase } = thread.state {
        match phase {
            Phase::AskBarrier { place } => {
                if thread.seen.len() < cells {
                    assert(next.seen.len() == thread.seen.len() + 1);
                    assert(next.state == thread.state);
                } else {
                    assert(next.state is Running);
                }
            },
            Phase::ReadShutdown { place: Place::Round } => {
                let tries = thread.plan.spin_tries;
                if tries > 0 {
                    assert(tries_after(tries) == tries - 1);
                }
            },
            Phase::Spin { left } => {
                if left > 1 {
                    assert(tries_after((left - 1) as u32) == tries_after(left) - 1);
                }
            },
            _ => {},
        }
    }
}

/// A move of a waiter takes one from what it has left.
proof fn lemma_wait_goes_on(world: World, waiter: int, m: Move)
    requires
        world.allows(m),
        m == (Move::Act { waiter }) || m == (Move::Return { waiter }),
    ensures
        world.after(m).moves_left() < world.moves_left(),
{
    let after = world.after(m);
    let left = wait_moves(after.waiters[waiter], world.cells[waiter].len());
    lemma_waiter_has_less_left(world, waiter, m);
    lemma_only_one_waiter_moves(world, waiter, m);
    assert(after.all_wait_moves() == world.all_wait_moves().update(waiter, left));
    assert(after.all_round_moves() == world.all_round_moves());
    lemma_sum_of_changed(world.all_wait_moves(), waiter, left);
}

/// A move of a waiter changes neither another waiter nor a waker nor what a waiter goes by.
proof fn lemma_only_one_waiter_moves(world: World, waiter: int, m: Move)
    requires
        world.allows(m),
        m == (Move::Act { waiter }) || m == (Move::Return { waiter }),
    ensures
        0 <= waiter < world.waiters.len(),
        world.after(m).waiters == world.waiters.update(waiter, world.after(m).waiters[waiter]),
        world.after(m).waiters[waiter].plan == world.waiters[waiter].plan,
        world.after(m).wakers == world.wakers,
        world.after(m).cells == world.cells,
        world.after(m).shutdown_at == world.shutdown_at,
{
}

/// A move of a waker takes one from what it has left, whatever it makes the waiters do.
proof fn lemma_wake_goes_on(world: World, waker: int, m: Move)
    requires
        world.allows(m),
        m == (Move::Wake { waker }) || m == (Move::TakeLock { waker }) || m == (Move::Raise { waker })
            || m == (Move::Notify { waker }) || m == (Move::Release { waker }),
    ensures
        world.after(m).moves_left() < world.moves_left(),
{
    let after = world.after(m);
    let steps = wake_moves(after.wakers[waker]);
    assert(steps < wake_moves(world.wakers[waker]));
    assert(after.all_wake_moves() == world.all_wake_moves().update(waker, steps));
    lemma_sum_of_changed(world.all_wake_moves(), waker, steps);
    assert(after.all_round_moves() == world.all_round_moves());
    lemma_sum_of_grown(world.all_wait_moves(), after.all_wait_moves(), world.all_round_moves());
    let before_wakes = sum(world.all_wake_moves());
    let after_wakes = sum(after.all_wake_moves());
    let rounds = sum(world.all_round_moves());
    assert(after_wakes * (rounds + 1) + (rounds + 1) <= before_wakes * (rounds + 1))
        by (nonlinear_arith)
        requires
            after_wakes + 1 <= before_wakes,
            rounds >= 0,
    ;
}

/// Every move by which something goes on takes one from what is left, also where the counter
/// starts anew.
proof fn lemma_going_on(world: World, m: Move)
    requires
        world.allows(m),
        goes_on(m),
    ensures
        world.after(m).moves_left() < world.moves_left(),
        world.after(m).cells == world.cells,
        world.after(m).shutdown_at == world.shutdown_at,
        world.after(m).waiters.len() == world.waiters.len(),
        forall|waiter: int|
            0 <= waiter < world.waiters.len() ==> (#[trigger] world.after(m).waiters[waiter]).plan
                == world.waiters[waiter].plan,
{
    match m {
        Move::Act { waiter } => {
            lemma_wait_goes_on(world, waiter, m);
            lemma_only_one_waiter_moves(world, waiter, m);
        },
        Move::Return { waiter } => {
            lemma_wait_goes_on(world, waiter, m);
            lemma_only_one_waiter_moves(world, waiter, m);
        },
        Move::Wake { waker } => lemma_wake_goes_on(world, waker, m),
        Move::TakeLock { waker } => lemma_wake_goes_on(world, waker, m),
        Move::Raise { waker } => lemma_wake_goes_on(world, waker, m),
        Move::Notify { waker } => lemma_wake_goes_on(world, waker, m),
        Move::Release { waker } => lemma_wake_goes_on(world, waker, m),
        _ => {},
    }
}

/// What was begun comes to rest. Only so many moves can be made in a row with what was begun, and
/// who had something to do before them has it after them.
pub proof fn what_was_begun_comes_to_rest(worlds: Seq<World>, moves: Seq<Move>, k: int)
    requires
        is_course(worlds, moves),
        0 <= k <= moves.len(),
        forall|i: int| k <= i < moves.len() ==> goes_on(#[trigger] moves[i]),
    ensures
        moves.len() - k + worlds.last().moves_left() <= worlds[k].moves_left(),
        worlds.last().waiters.len() == worlds[k].waiters.len(),
        forall|waiter: int|
            0 <= waiter < worlds[k].waiters.len() ==> #[trigger] worlds.last().has_something_to_do(
                waiter,
            ) == worlds[k].has_something_to_do(waiter),
    decreases moves.len() - k,
{
    if k < moves.len() {
        let m = moves[k];
        assert(worlds[k + 1] == worlds[k].after(m));
        lemma_going_on(worlds[k], m);
        what_was_begun_comes_to_rest(worlds, moves, k + 1);
        assert forall|waiter: int|
            0 <= waiter < worlds[k].waiters.len() implies #[trigger] worlds.last().has_something_to_do(
            waiter,
        ) == worlds[k].has_something_to_do(waiter) by {
            assert(worlds[k].after(m).waiters[waiter].plan == worlds[k].waiters[waiter].plan);
        }
    }
}

/// Nobody has the lock when all is at rest, and every waker is through.
proof fn lemma_at_rest_wakers_are_through(world: World)
    requires
        world.sound(),
        is_at_rest(world),
    ensures
        world.holder is None,
        forall|waker: int| 0 <= waker < world.wakers.len() ==> (#[trigger] world.wakers[waker]) is Idle,
{
    match world.holder {
        Some(Holder::Waiter(waiter)) => {
            assert(under_lock(world.waiters[waiter]));
            assert(world.allows(Move::Act { waiter }));
        },
        Some(Holder::Waker(waker)) => {
            assert(world.allows(Move::Raise { waker }) || world.allows(Move::Notify { waker })
                || world.allows(Move::Release { waker }));
        },
        None => {},
    }
    assert forall|waker: int|
        0 <= waker < world.wakers.len() implies (#[trigger] world.wakers[waker]) is Idle by {
        assert(!world.allows(Move::Wake { waker }));
        assert(!world.allows(Move::TakeLock { waker }));
        assert(!world.allows(Move::Raise { waker }));
        assert(!world.allows(Move::Notify { waker }));
        assert(!world.allows(Move::Release { waker }));
    }
}

/// When all is at rest every wake has returned, and so has every wait for something that is there.
/// The waiters that have not returned sleep.
pub proof fn at_rest_every_wait_with_something_to_do_has_returned(
    worlds: Seq<World>,
    moves: Seq<Move>,
    k: int,
)
    requires
        is_course(worlds, moves),
        0 <= k < worlds.len(),
        is_at_rest(worlds[k]),
    ensures
        forall|waker: int|
            0 <= waker < worlds[k].wakers.len() ==> (#[trigger] worlds[k].wakers[waker]) is Idle,
        forall|waiter: int|
            0 <= waiter < worlds[k].waiters.len() ==> {
                ||| has_returned(#[trigger] worlds[k].waiters[waiter])
                ||| worlds[k].waiters[waiter].state is Asleep && !worlds[k].has_something_to_do(
                    waiter,
                )
            },
{
    let world = worlds[k];
    lemma_course_is_sound(worlds, moves, k);
    lemma_at_rest_wakers_are_through(world);
    assert forall|waiter: int| 0 <= waiter < world.waiters.len() implies {
        ||| has_returned(#[trigger] world.waiters[waiter])
        ||| world.waiters[waiter].state is Asleep && !world.has_something_to_do(waiter)
    } by {
        assert(!world.allows(Move::Act { waiter }));
        assert(!world.allows(Move::Return { waiter }));
        if world.waiters[waiter].state is Asleep && world.has_something_to_do(waiter) {
            lemma_sound_is_safe(world, waiter);
        }
    }
}

} // verus!
