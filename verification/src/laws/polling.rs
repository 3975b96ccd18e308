//! Laws of polling: what a poll yields, and how polls follow each other.

use crate::barrier::Barrier;
use crate::consumer::event_poller::{
    last_within, next_sequence, poll_decision, EventGuard, EventPoller, Polling,
};
use crate::wait_strategies::record::Access;
use crate::wait_strategies::Waiter;
use crate::Sequence;
use vstd::prelude::*;

verus! {

/// A poll without a limit yields everything that is available.
pub proof fn a_poll_yields_all_that_is_available(
    cursor_at: Sequence,
    shutdown_at: Sequence,
    available: Sequence,
)
    requires
        next_sequence(cursor_at) != shutdown_at,
    ensures
        poll_decision(cursor_at, shutdown_at, available, u64::MAX) == if available
            < next_sequence(cursor_at) {
            Err::<(Sequence, Sequence), Polling>(Polling::NoEvents)
        } else {
            Ok::<(Sequence, Sequence), Polling>((next_sequence(cursor_at), available))
        },
{
    assert(last_within(cursor_at, u64::MAX) == i64::MAX);
}

/// A poll with a limit yields as many events as are available, but no more than the limit.
pub proof fn a_limited_poll_yields_up_to_its_limit(
    cursor_at: Sequence,
    shutdown_at: Sequence,
    available: Sequence,
    limit: u64,
)
    requires
        cursor_at < i64::MAX,
        cursor_at + 1 != shutdown_at,
        cursor_at < available,
    ensures
        poll_decision(cursor_at, shutdown_at, available, limit) matches Ok((first, last)) && {
            &&& first == cursor_at + 1
            &&& last - first + 1 == if limit < available - cursor_at {
                limit as int
            } else {
                available - cursor_at
            }
        },
{
}

/// A limit of zero is no reason for a refusal: such a poll gives a guard without events unless the
/// disruptor is shut down, whether or not there are events.
pub proof fn a_limit_of_zero_is_granted(
    cursor_at: Sequence,
    shutdown_at: Sequence,
    available: Sequence,
)
    requires
        next_sequence(cursor_at) != shutdown_at,
        cursor_at < i64::MAX,
    ensures
        poll_decision(cursor_at, shutdown_at, available, 0) matches Ok((first, last)) && last < first
            && last == cursor_at,
{
}

/// Any other limit refuses nothing that a poll without one would grant, and grants nothing that it
/// would refuse.
pub proof fn a_limit_refuses_nothing(
    cursor_at: Sequence,
    shutdown_at: Sequence,
    available: Sequence,
    limit: u64,
)
    requires
        limit > 0,
    ensures
        poll_decision(cursor_at, shutdown_at, available, limit) is Ok <==> poll_decision(
            cursor_at,
            shutdown_at,
            available,
            u64::MAX,
        ) is Ok,
        poll_decision(cursor_at, shutdown_at, available, limit) is Err ==> poll_decision(
            cursor_at,
            shutdown_at,
            available,
            limit,
        ) == poll_decision(cursor_at, shutdown_at, available, u64::MAX),
{
}

/// One poll: its limit, and what was read of the marker and of the barrier.
pub struct Poll {
    /// The limit.
    pub limit: u64,
    /// What the marker held.
    pub shutdown_at: Sequence,
    /// What the barrier gave.
    pub available: Sequence,
}

impl Poll {
    /// What the poll gives.
    pub open spec fn decision(self, cursor_at: Sequence) -> Result<(Sequence, Sequence), Polling> {
        poll_decision(cursor_at, self.shutdown_at, self.available, self.limit)
    }
}

/// Where the cursor stands after the polls, each guard having been dropped before the next poll.
pub open spec fn cursor_after(cursor_at: Sequence, polls: Seq<Poll>) -> Sequence
    decreases polls.len(),
{
    if polls.len() == 0 {
        cursor_at
    } else {
        let before = cursor_after(cursor_at, polls.drop_last());
        match polls.last().decision(before) {
            Ok((_, last)) => last,
            Err(_) => before,
        }
    }
}

/// The sequences from `first` to `last`.
pub open spec fn sequences(first: int, last: int) -> Seq<Sequence> {
    if last < first {
        Seq::empty()
    } else {
        Seq::new((last - first + 1) as nat, |k: int| (first + k) as Sequence)
    }
}

/// All sequences that the guards of the polls yield, in order.
pub open spec fn yielded_by(cursor_at: Sequence, polls: Seq<Poll>) -> Seq<Sequence>
    decreases polls.len(),
{
    if polls.len() == 0 {
        Seq::empty()
    } else {
        let before = cursor_after(cursor_at, polls.drop_last());
        yielded_by(cursor_at, polls.drop_last()) + match polls.last().decision(before) {
            Ok((first, last)) => sequences(first as int, last as int),
            Err(_) => Seq::empty(),
        }
    }
}

/// Any number of polls, with any limits, whatever they find and whichever of them are refused,
/// yield together every event between where the cursor was and where it is: none is skipped, none
/// comes twice, and they come in order. None of them yields more than the barrier gave. Only a poll
/// that begins at the greatest sequence is left out, since there is none after that.
pub proof fn polls_follow_each_other(cursor_at: Sequence, polls: Seq<Poll>)
    requires
        forall|i: int|
            0 <= i < polls.len() ==> #[trigger] cursor_after(cursor_at, polls.take(i)) < i64::MAX,
    ensures
        cursor_at <= cursor_after(cursor_at, polls),
        yielded_by(cursor_at, polls) == sequences(
            cursor_at + 1,
            cursor_after(cursor_at, polls) as int,
        ),
        forall|i: int|
            #![trigger polls[i]]
            0 <= i < polls.len() ==> (polls[i].decision(cursor_after(cursor_at, polls.take(i)))
                matches Ok((first, last)) ==> last < first || last <= polls[i].available),
    decreases polls.len(),
{
    if polls.len() > 0 {
        let earlier = polls.drop_last();
        assert(polls.take(polls.len() - 1) == earlier);
        assert forall|i: int| 0 <= i < earlier.len() implies #[trigger] cursor_after(
            cursor_at,
            earlier.take(i),
        ) < i64::MAX by {
            assert(earlier.take(i) == polls.take(i));
        }
        polls_follow_each_other(cursor_at, earlier);
        let before = cursor_after(cursor_at, earlier);
        assert(before < i64::MAX);
        if let Ok((first, last)) = polls.last().decision(before) {
            assert(sequences(cursor_at + 1, before as int) + sequences(first as int, last as int)
                == sequences(cursor_at + 1, last as int));
        } else {
            assert(yielded_by(cursor_at, polls) == yielded_by(cursor_at, earlier));
        }
        assert forall|i: int|
            #![trigger polls[i]]
            0 <= i < polls.len() implies (polls[i].decision(
            cursor_after(cursor_at, polls.take(i)),
        ) matches Ok((first, last)) ==> last < first || last <= polls[i].available) by {
            if i < earlier.len() {
                assert(earlier[i] == polls[i]);
                assert(earlier.take(i) == polls.take(i));
            }
        }
    }
}

/// A guard that is read to its end gives each of its events once, in order. `positions` are those
/// of the guard, from before the first read on; each read but the last found an event.
pub proof fn a_guard_gives_each_event_once_in_order(
    positions: Seq<Sequence>,
    upper: Sequence,
    k: int,
)
    requires
        upper < i64::MAX,
        0 < positions.len(),
        forall|i: int|
            0 <= i < positions.len() - 1 ==> (#[trigger] positions[i]) <= upper && positions[i + 1]
                == next_sequence(positions[i]),
        0 <= k < positions.len(),
    ensures
        positions[k] == positions[0] + k,
        positions[0] <= upper ==> positions.len() - 1 <= upper - positions[0] + 1,
        positions[0] <= upper && positions.last() > upper ==> positions.len() - 1 == upper
            - positions[0] + 1,
{
    lemma_positions(positions, upper, k);
    lemma_positions(positions, upper, positions.len() - 1);
    if positions.len() > 1 {
        lemma_positions(positions, upper, positions.len() - 2);
        assert(positions[positions.len() - 2] <= upper);
    }
}

/// The position after `k` reads.
proof fn lemma_positions(positions: Seq<Sequence>, upper: Sequence, k: int)
    requires
        upper < i64::MAX,
        forall|i: int|
            0 <= i < positions.len() - 1 ==> (#[trigger] positions[i]) <= upper && positions[i + 1]
                == next_sequence(positions[i]),
        0 <= k < positions.len(),
    ensures
        positions[k] == positions[0] + k,
    decreases k,
{
    if k > 0 {
        lemma_positions(positions, upper, k - 1);
        assert(positions[k - 1 + 1] == next_sequence(positions[k - 1]));
    }
}

/// The access changes nothing that another thread could see.
pub open spec fn only_reads(access: Access) -> bool {
    access is Barrier || access is Marker || access is Fence
}

/// A poll writes nothing. It reads its marker and its barrier, keeps its cursor where it is, and a
/// guard that it gives has not moved the cursor either.
pub proof fn a_poll_writes_nothing<E, B: Barrier>(
    poller: &mut EventPoller<E, B>,
    limit: u64,
    result: Result<EventGuard<'_, E, B>, Polling>,
)
    requires
        call_ensures(EventPoller::<E, B>::poll_take, (poller, limit), result),
    ensures
        old(poller).record().log().is_prefix_of(final(poller).record().log()),
        forall|i: int|
            old(poller).record().log().len() <= i < final(poller).record().log().len()
                ==> only_reads(#[trigger] final(poller).record().log()[i]),
        final(poller).same_as(old(poller)),
        result is Err ==> final(poller).claims() == old(poller).claims(),
        result matches Ok(guard) ==> guard.announced() == Seq::<Sequence>::empty(),
{
}

/// A poll that waited in vain is as if it had not been made: what a later poll gives follows from
/// what it reads of the cursor, of the marker and of the barrier that the poller had before, and
/// neither of the two has written to any of them.
pub proof fn a_poll_in_vain_is_as_if_not_made<E, B: Barrier, W: Waiter>(
    poller: &mut EventPoller<E, B>,
    waiter: &mut W,
    refused: Result<EventGuard<'_, E, B>, Polling>,
    later: &mut EventPoller<E, B>,
    limit: u64,
    result: Result<EventGuard<'_, E, B>, Polling>,
)
    requires
        call_ensures(EventPoller::<E, B>::poll_wait::<W>, (poller, waiter), refused),
        refused is Err,
        call_ensures(EventPoller::<E, B>::poll_take, (later, limit), result),
    ensures
        final(poller).same_as(old(poller)),
        final(poller).claims() == old(poller).claims(),
        final(poller).record() == old(poller).record(),
        *old(later) == *final(poller) ==> exists|
            cursor_at: Sequence,
            shutdown_at: Sequence,
            available: Sequence,
        |
            #[trigger] old(poller).polled(cursor_at, shutdown_at, available) && old(poller).gave(
                result,
                poll_decision(cursor_at, shutdown_at, available, limit),
            ),
{
    if *later == *final(poller) {
        let (cursor_at, shutdown_at, available) = choose|
            cursor_at: Sequence,
            shutdown_at: Sequence,
            available: Sequence,
        |
            #[trigger] later.polled(cursor_at, shutdown_at, available) && later.gave(
                result,
                poll_decision(cursor_at, shutdown_at, available, limit),
            );
        assert(poller.polled(cursor_at, shutdown_at, available));
    }
}

} // verus!
