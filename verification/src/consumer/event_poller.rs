//! Polling for events from a thread of one's own.

use crate::atomics::{fenced_acquire, loaded_relaxed};
use crate::barrier::Barrier;
use crate::consumer::claim::Claim;
use crate::consumer::progress::Progress;
use crate::cursor::Cursor;
use crate::ringbuffer::RingBuffer;
use crate::wait_strategies::record::{answers_of, barrier_gave, marker_gave, Access, Record};
use crate::wait_strategies::{outcome_observed, WaitOutcome, Waiter};
use crate::Sequence;
use crossbeam_utils::CachePadded;
use std::sync::atomic::AtomicI64;
use std::sync::Arc;
use vstd::prelude::*;

verus! {

/// Polls events from the ring buffer.
///
/// Use it to process events in a thread of your own. It reads events in batches: each successful
/// poll gives an [`EventGuard`] for the events that were available, and the poller counts as done
/// with all of them when the guard is dropped.
pub struct EventPoller<E, B> {
    ring_buffer: Arc<RingBuffer<E>>,
    dependent_barrier: Arc<B>,
    shutdown_at_sequence: Arc<CachePadded<AtomicI64>>,
    progress: Progress,
    record: Record,
}

/// Error types that can occur if polling is unsuccessful.
#[derive(Debug, Clone, Copy, PartialEq, Eq, Structural)]
pub enum Polling {
    /// Indicates that there are no events available to process.
    NoEvents,
    /// Indicates that the Disruptor has been shut down.
    Shutdown,
}

impl Polling {
    /// The error in words.
    pub open spec fn words(self) -> Seq<char> {
        match self {
            Polling::NoEvents => "No available events."@,
            Polling::Shutdown => "Disruptor is shut down."@,
        }
    }

    /// The error in words.
    pub fn message(&self) -> (message: &'static str)
        ensures
            message@ == self.words(),
    {
        match self {
            Polling::NoEvents => "No available events.",
            Polling::Shutdown => "Disruptor is shut down.",
        }
    }
}

/// The sequence after the given one. The one after the greatest is the least.
pub open spec fn next_sequence(sequence: Sequence) -> Sequence {
    if sequence == i64::MAX {
        i64::MIN
    } else {
        (sequence + 1) as Sequence
    }
}

/// The last sequence that a poll may yield if it is to yield no more than `limit` events after
/// `cursor_at`.
pub open spec fn last_within(cursor_at: Sequence, limit: u64) -> Sequence {
    if cursor_at + limit > i64::MAX {
        i64::MAX
    } else {
        (cursor_at + limit) as Sequence
    }
}

/// What a poll gives: the first and the last sequence that it yields. If the last is less than the
/// first, it yields nothing. With a limit of zero it yields nothing and is not refused for want of
/// events.
pub open spec fn poll_decision(
    cursor_at: Sequence,
    shutdown_at: Sequence,
    available: Sequence,
    limit: u64,
) -> Result<(Sequence, Sequence), Polling> {
    let sequence = next_sequence(cursor_at);
    if sequence == shutdown_at {
        Err(Polling::Shutdown)
    } else if limit == 0 {
        Ok((sequence, cursor_at))
    } else if available < sequence {
        Err(Polling::NoEvents)
    } else if available < last_within(cursor_at, limit) {
        Ok((sequence, available))
    } else {
        Ok((sequence, last_within(cursor_at, limit)))
    }
}

/// What a poll gives that waited for `sequence` with the given outcome.
pub open spec fn wait_verdict(
    sequence: Sequence,
    outcome: WaitOutcome,
) -> Result<(Sequence, Sequence), Polling> {
    match outcome {
        WaitOutcome::Available { upper } => Ok((sequence, upper)),
        WaitOutcome::Shutdown => Err(Polling::Shutdown),
        WaitOutcome::Timeout => Err(Polling::NoEvents),
    }
}

/// `i64::saturating_add_unsigned`: the sum, or the greatest number where the sum is greater.
pub assume_specification[ i64::saturating_add_unsigned ](x: i64, y: u64) -> (sum: i64)
    ensures
        sum == if x + y > i64::MAX {
            i64::MAX as int
        } else {
            x + y
        },
;

/// Decides a poll from what was read of the cursor, of the shutdown marker and of the barrier.
pub fn decide_poll(
    cursor_at: Sequence,
    shutdown_at: Sequence,
    available: Sequence,
    limit: u64,
) -> (decision: Result<(Sequence, Sequence), Polling>)
    ensures
        decision == poll_decision(cursor_at, shutdown_at, available, limit),
{
    let sequence = cursor_at.wrapping_add(1);
    if sequence == shutdown_at {
        return Err(Polling::Shutdown);
    }
    if limit == 0 {
        return Ok((sequence, cursor_at));
    }
    if available < sequence {
        return Err(Polling::NoEvents);
    }
    let max_sequence = cursor_at.saturating_add_unsigned(limit);
    if available < max_sequence {
        Ok((sequence, available))
    } else {
        Ok((sequence, max_sequence))
    }
}

/// Decides a poll from the outcome of a wait for `sequence`.
pub fn decide_poll_wait(sequence: Sequence, outcome: WaitOutcome) -> (decision: Result<
    (Sequence, Sequence),
    Polling,
>)
    ensures
        decision == wait_verdict(sequence, outcome),
{
    match outcome {
        WaitOutcome::Available { upper } => Ok((sequence, upper)),
        WaitOutcome::Shutdown => Err(Polling::Shutdown),
        WaitOutcome::Timeout => Err(Polling::NoEvents),
    }
}

/// A count that was computed with wrapping, and then cut down to a `usize`, is the remainder of the
/// true count.
proof fn lemma_count_as_usize(wrapped: i64, count: int)
    requires
        1 <= count <= 0x1_0000_0000_0000_0000,
        wrapped == count || wrapped == count - 0x1_0000_0000_0000_0000,
    ensures
        wrapped as usize == count % (usize::MAX + 1),
        count <= usize::MAX ==> wrapped as usize == count,
{
    let bits = wrapped as u64;
    if wrapped < 0 {
        assert(bits == wrapped + 0x1_0000_0000_0000_0000) by (bit_vector)
            requires
                wrapped < 0i64,
                bits == wrapped as u64,
        ;
    }
    assert(usize::BITS == 32 || usize::BITS == 64);
    if usize::BITS == 64 {
        assert(usize::MAX == 0xffff_ffff_ffff_ffff);
        assert(count % 0x1_0000_0000_0000_0000 == bits);
        assert(wrapped as usize as u64 == bits) by (bit_vector)
            requires
                usize::BITS == 64,
                bits == wrapped as u64,
        ;
    } else {
        assert(usize::MAX == 0xffff_ffff);
        assert(count % 0x1_0000_0000 == bits % 0x1_0000_0000);
        assert(wrapped as usize as u64 == bits % 0x1_0000_0000) by (bit_vector)
            requires
                usize::BITS == 32,
                bits == wrapped as u64,
        ;
    }
}

/// Guards the available events that can be processed when using the EventPoller API.
///
/// Its `next` reads the published events one after the other. Dropping the guard signals that the
/// reading is completed, whether or not all events were read. This allows other consumers or
/// producers to advance.
pub struct EventGuard<'p, E, B> {
    parent: &'p EventPoller<E, B>,
    claim: Claim,
    sequence: Sequence,
    available: Sequence,
}

impl<'p, E, B> EventGuard<'p, E, B> {
    /// The poller that gave the guard.
    pub closed spec fn poller(&self) -> EventPoller<E, B> {
        *self.parent
    }

    /// Where the guard has moved the cursor of the poller to, in order.
    pub closed spec fn announced(&self) -> Seq<Sequence> {
        self.claim.announced()
    }

    /// The cursor that the guard moves when it is dropped.
    pub closed spec fn moves(&self) -> Cursor {
        self.claim.moves()
    }

    /// The sequence of the event that is read next.
    pub closed spec fn position(&self) -> Sequence {
        self.sequence
    }

    /// The sequence of the last event that can be read.
    pub closed spec fn upper(&self) -> Sequence {
        self.available
    }

    /// The number of events that are left to read.
    pub open spec fn left(&self) -> int {
        if self.position() > self.upper() {
            0
        } else {
            self.upper() - self.position() + 1
        }
    }

    /// Returns the number of events available to read. As a `usize` it starts anew where the number
    /// is greater than a `usize` can be.
    pub fn len(&self) -> (len: usize)
        ensures
            len == self.left() % (usize::MAX + 1),
            self.left() <= usize::MAX ==> len == self.left(),
    {
        if self.sequence > self.available {
            assert(0int % (usize::MAX + 1) == 0);
            0
        } else {
            let count = self.available.wrapping_sub(self.sequence).wrapping_add(1);
            proof {
                lemma_count_as_usize(count, self.left());
            }
            count as usize
        }
    }

    /// Returns true if no events are available to read.
    pub fn is_empty(&self) -> (empty: bool)
        ensures
            empty == (self.left() % (usize::MAX + 1) == 0),
            self.left() <= usize::MAX ==> empty == (self.left() == 0),
    {
        self.len() == 0
    }

    /// Reads the next event, if one is left.
    pub fn next(&mut self) -> (item: Option<(Sequence, &E)>)
        ensures
            final(self).poller() == old(self).poller(),
            final(self).upper() == old(self).upper(),
            final(self).announced() == old(self).announced(),
            final(self).moves() == old(self).moves(),
            if old(self).left() == 0 {
                item is None && final(self).position() == old(self).position()
            } else {
                &&& item matches Some((sequence, event)) && {
                    &&& sequence == old(self).position()
                    &&& *event == old(self).poller().ring().event_at(sequence as int)
                }
                &&& final(self).position() == next_sequence(old(self).position())
            },
    {
        if self.sequence > self.available {
            return None;
        }
        let sequence = self.sequence;
        let event = self.parent.ring_buffer.get(sequence);
        self.sequence = sequence.wrapping_add(1);
        Some((sequence, event))
    }
}

impl<'p, E, B> Drop for EventGuard<'p, E, B> {
    /// Signals to producers or later consumers that the events up to the last one of the guard are
    /// done with.
    fn drop(&mut self)
        ensures
            old(self).moves().moved_to(old(self).upper()),
            final(self).announced() == old(self).announced().push(old(self).upper()),
        opens_invariants none
        no_unwind
    {
        self.claim.announce(self.available)
    }
}

impl<E, B> EventPoller<E, B> {
    /// The ring buffer that the events are read from.
    pub closed spec fn ring(&self) -> RingBuffer<E> {
        *self.ring_buffer
    }

    /// The barrier that tells which events are available.
    pub closed spec fn behind(&self) -> B {
        *self.dependent_barrier
    }

    /// The marker that tells from which sequence on there are no more events.
    pub closed spec fn shutdown_cell(&self) -> CachePadded<AtomicI64> {
        *self.shutdown_at_sequence
    }

    /// The cursor that tells how far the poller has read.
    pub closed spec fn reads_into(&self) -> Cursor {
        self.progress.reads_into()
    }

    /// How many guards the poller has given the right to move its cursor.
    pub closed spec fn claims(&self) -> nat {
        self.progress.claims()
    }

    /// What the poller has read of its marker and its barrier, in order.
    pub closed spec fn record(&self) -> Record {
        self.record
    }

    /// The ring buffer, the barrier, the marker and the cursor are those of `other`.
    pub open spec fn same_as(&self, other: &Self) -> bool {
        &&& self.ring() == other.ring()
        &&& self.behind() == other.behind()
        &&& self.shutdown_cell() == other.shutdown_cell()
        &&& self.reads_into() == other.reads_into()
    }
}

impl<E, B> EventPoller<E, B> where B: Barrier {
    /// The cursor, the marker and, unless that tells of a shutdown, the barrier were read and gave
    /// these values.
    pub open spec fn polled(
        &self,
        cursor_at: Sequence,
        shutdown_at: Sequence,
        available: Sequence,
    ) -> bool {
        let sequence = next_sequence(cursor_at);
        &&& self.reads_into().shows(cursor_at)
        &&& loaded_relaxed(self.shutdown_cell(), shutdown_at)
        &&& sequence != shutdown_at ==> self.behind().observes(sequence, available)
    }

    /// Whether a poll of this poller gave what was decided: a guard for the events between two
    /// sequences, which has not moved the cursor, or the error.
    pub open spec fn gave(
        &self,
        result: Result<EventGuard<'_, E, B>, Polling>,
        decision: Result<(Sequence, Sequence), Polling>,
    ) -> bool {
        match decision {
            Ok((first, last)) => {
                &&& result matches Ok(guard) && {
                    &&& guard.poller().same_as(self)
                    &&& guard.position() == first
                    &&& guard.upper() == last
                    &&& guard.moves() == self.reads_into()
                    &&& guard.announced() == Seq::<Sequence>::empty()
                }
            },
            Err(polling) => result matches Err(error) && error == polling,
        }
    }

    /// What a poll leaves behind. Its own handles are the same, and nobody was given the right to
    /// move its cursor but the guard, if there is one: as long as a guard lives, and where there is
    /// none, the cursor stays where it is.
    pub open spec fn untouched(&self, before: &Self, gave_guard: bool) -> bool {
        &&& self.same_as(before)
        &&& self.claims() == before.claims() + if gave_guard {
            1nat
        } else {
            0nat
        }
    }

    /// What a poll reads after the cursor: the marker and, unless that tells of a shutdown, the
    /// barrier. A fence follows if the poll gives a guard.
    pub open spec fn poll_accesses(
        &self,
        cursor_at: Sequence,
        shutdown_at: Sequence,
        available: Sequence,
        gave_guard: bool,
    ) -> Seq<Access> {
        let marker = marker_gave(&self.shutdown_cell(), shutdown_at);
        let sequence = next_sequence(cursor_at);
        let asked = barrier_gave(answers_of(&self.behind()), sequence, available);
        if sequence == shutdown_at {
            seq![marker]
        } else if gave_guard {
            seq![marker, asked, Access::Fence]
        } else {
            seq![marker, asked]
        }
    }

    /// Makes a poller that reads from the ring buffer what the barrier lets it, and keeps account
    /// in the cursor.
    pub fn new(
        ring_buffer: Arc<RingBuffer<E>>,
        dependent_barrier: Arc<B>,
        shutdown_at_sequence: Arc<CachePadded<AtomicI64>>,
        cursor: Arc<Cursor>,
    ) -> (poller: Self)
        ensures
            poller.ring() == *ring_buffer,
            poller.behind() == *dependent_barrier,
            poller.shutdown_cell() == *shutdown_at_sequence,
            poller.reads_into() == *cursor,
            poller.claims() == 0,
            poller.record().log() == Seq::<Access>::empty(),
    {
        EventPoller {
            ring_buffer,
            dependent_barrier,
            shutdown_at_sequence,
            progress: Progress::new(cursor),
            record: Record::new(),
        }
    }

    /// Polls the ring buffer and returns an [`EventGuard`] if any events are available.
    /// The guard yields all events that are available at the time of polling.
    /// Dropping the guard signals that the events have been processed.
    ///
    /// This method does not block; it will return immediately.
    ///
    /// It is the same as [`EventPoller::poll_take`] with `u64::MAX` as the limit.
    ///
    /// # Errors
    ///
    /// This method returns an error if:
    /// 1. No events are available: [`Polling::NoEvents`]
    /// 2. The Disruptor is shut down: [`Polling::Shutdown`]
    pub fn poll(&mut self) -> (result: Result<EventGuard<'_, E, B>, Polling>)
        ensures
            final(self).untouched(old(self), result is Ok),
            exists|cursor_at: Sequence, shutdown_at: Sequence, available: Sequence|
                {
                    &&& #[trigger] old(self).polled(cursor_at, shutdown_at, available)
                    &&& old(self).gave(
                        result,
                        poll_decision(cursor_at, shutdown_at, available, u64::MAX),
                    )
                    &&& final(self).record().extends(
                        &old(self).record(),
                        old(self).poll_accesses(
                            cursor_at,
                            shutdown_at,
                            available,
                            result is Ok,
                        ),
                    )
                },
            result is Ok ==> fenced_acquire(),
    {
        self.poll_take(u64::MAX)
    }

    /// Polls for available events, yielding at most `limit` events.
    ///
    /// This method behaves like [`EventPoller::poll`], but caps the number of events yielded by
    /// the returned [`EventGuard`]. Fewer events may be yielded if less are available at the time
    /// of polling.
    ///
    /// Note: A `limit` of zero returns an [`EventGuard`] that yields no events (and not a
    /// [`Polling::NoEvents`] error).
    pub fn poll_take(&mut self, limit: u64) -> (result: Result<EventGuard<'_, E, B>, Polling>)
        ensures
            final(self).untouched(old(self), result is Ok),
            exists|cursor_at: Sequence, shutdown_at: Sequence, available: Sequence|
                {
                    &&& #[trigger] old(self).polled(cursor_at, shutdown_at, available)
                    &&& old(self).gave(
                        result,
                        poll_decision(cursor_at, shutdown_at, available, limit),
                    )
                    &&& final(self).record().extends(
                        &old(self).record(),
                        old(self).poll_accesses(
                            cursor_at,
                            shutdown_at,
                            available,
                            result is Ok,
                        ),
                    )
                },
            result is Ok ==> fenced_acquire(),
    {
        let cursor_at = self.progress.position();
        let sequence = cursor_at.wrapping_add(1);
        let shutdown_at = self.record.read_marker(&self.shutdown_at_sequence);
        if sequence == shutdown_at {
            assert(old(self).polled(cursor_at, shutdown_at, 0));
            return Err(Polling::Shutdown);
        }
        let available = self.record.ask(sequence, &*self.dependent_barrier);
        let ghost given = available;
        assert(old(self).polled(cursor_at, shutdown_at, available));
        match decide_poll(cursor_at, shutdown_at, available, limit) {
            Ok((sequence, available)) => {
                self.record.fence();
                let claim = self.progress.claim();
                assert(self.record.log() == old(self).record.log() + old(self).poll_accesses(
                    cursor_at,
                    shutdown_at,
                    given,
                    true,
                ));
                Ok(EventGuard { parent: self, claim, sequence, available })
            },
            Err(polling) => {
                assert(self.record.log() == old(self).record.log() + old(self).poll_accesses(
                    cursor_at,
                    shutdown_at,
                    given,
                    false,
                ));
                Err(polling)
            },
        }
    }

    /// Wait for events using the provided [`Waiter`] and then return an [`EventGuard`].
    ///
    /// This is useful to drive a poller from your own thread while still reusing the library's
    /// wait strategies.
    ///
    /// If the waiter returns [`WaitOutcome::Timeout`], this returns [`Polling::NoEvents`] so the
    /// caller can do other work.
    pub fn poll_wait<W: Waiter>(&mut self, waiter: &mut W) -> (result: Result<
        EventGuard<'_, E, B>,
        Polling,
    >)
        ensures
            final(self).untouched(old(self), result is Ok),
            final(self).record() == old(self).record(),
            exists|cursor_at: Sequence, outcome: WaitOutcome|
                {
                    &&& old(self).reads_into().shows(cursor_at)
                    &&& old(waiter).reports(
                        next_sequence(cursor_at),
                        answers_of(&old(self).behind()),
                        &old(self).shutdown_cell(),
                        outcome,
                        final(waiter),
                    )
                    &&& #[trigger] outcome_observed(
                        next_sequence(cursor_at),
                        &old(self).behind(),
                        &old(self).shutdown_cell(),
                        outcome,
                    )
                    &&& old(self).gave(result, wait_verdict(next_sequence(cursor_at), outcome))
                },
            result is Ok ==> fenced_acquire(),
    {
        let cursor_at = self.progress.position();
        let sequence = cursor_at.wrapping_add(1);
        let outcome = waiter.wait_for(
            sequence,
            &*self.dependent_barrier,
            &*self.shutdown_at_sequence,
        );
        assert(outcome_observed(
            next_sequence(cursor_at),
            &self.behind(),
            &self.shutdown_cell(),
            outcome,
        ));
        match decide_poll_wait(sequence, outcome) {
            Ok((sequence, available)) => {
                let claim = self.progress.claim();
                Ok(EventGuard { parent: self, claim, sequence, available })
            },
            Err(polling) => Err(polling),
        }
    }
}

} // verus!
