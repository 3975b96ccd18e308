//! Consumers: the barriers that they form and the loop that they run.

pub mod claim;
pub mod desk;
pub mod event_poller;
pub mod processor;
pub mod progress;

use crate::atomics::{loaded, loaded_acquire};
use crate::barrier::Barrier;
use crate::consumer::desk::{Act, Desk};
use crate::cursor::{Cursor, Watched};
use crate::event_handler::{EventSink, HandlerSink, StatefulSink};
use crate::ringbuffer::RingBuffer;
use crate::sequence::{DependentSequence, WatchedSequence};
use crate::wait_strategies::record::{answers_of, Answers};
use crate::wait_strategies::{WaitOutcome, Waiter, WakeupNotifier};
use crate::Sequence;
use crossbeam_utils::CachePadded;
use std::sync::atomic::AtomicI64;
use std::sync::Arc;
use vstd::prelude::*;

verus! {

/// The least of the values: none of them is less, and it is one of them. Where there are none, it
/// is the greatest number.
pub open spec fn is_slowest(values: Seq<Sequence>, slowest: Sequence) -> bool {
    &&& forall|i: int| 0 <= i < values.len() ==> slowest <= #[trigger] values[i]
    &&& if values.len() == 0 {
        slowest == i64::MAX
    } else {
        values.contains(slowest)
    }
}

/// The lesser of two sequences.
pub fn slower_of(slowest: Sequence, sequence: Sequence) -> (slower: Sequence)
    ensures
        slower == if sequence < slowest {
            sequence
        } else {
            slowest
        },
{
    if sequence < slowest {
        sequence
    } else {
        slowest
    }
}

/// The values are what loads of the cursors gave, one of each.
pub open spec fn cursors_show(cursors: Seq<Arc<Cursor>>, values: Seq<Sequence>) -> bool {
    &&& values.len() == cursors.len()
    &&& forall|i: int|
        0 <= i < cursors.len() ==> (#[trigger] cursors[i]).shows(values[i])
}

/// The values are what loads of the dependent sequences gave, one of each.
pub open spec fn dependents_show(
    dependents: Seq<Arc<DependentSequence>>,
    values: Seq<Sequence>,
) -> bool {
    &&& values.len() == dependents.len()
    &&& forall|i: int|
        0 <= i < dependents.len() ==> loaded_acquire((#[trigger] dependents[i]).cell(), values[i])
}

/// A value joins those of which the least is known.
proof fn lemma_slowest_push(values: Seq<Sequence>, slowest: Sequence, value: Sequence)
    requires
        is_slowest(values, slowest),
    ensures
        is_slowest(
            values.push(value),
            if value < slowest {
                value
            } else {
                slowest
            },
        ),
{
    let more = values.push(value);
    assert(more[values.len() as int] == value);
    if values.len() > 0 {
        let i = choose|i: int| 0 <= i < values.len() && values[i] == slowest;
        assert(more[i] == slowest);
    }
}

/// The cursors that are watched.
pub open spec fn all_watched(cursors: Seq<Watched>) -> Seq<Arc<Cursor>> {
    Seq::new(cursors.len(), |i: int| cursors[i].watched())
}

/// The external sequences that are watched.
pub open spec fn all_sequences_watched(sequences: Seq<WatchedSequence>) -> Seq<
    Arc<DependentSequence>,
> {
    Seq::new(sequences.len(), |i: int| sequences[i].watched())
}

/// Watches each of the cursors.
fn watch_all(cursors: &Vec<Arc<Cursor>>) -> (watched: Vec<Watched>)
    ensures
        all_watched(watched@) == cursors@,
{
    let mut watched: Vec<Watched> = Vec::new();
    let mut i: usize = 0;
    while i < cursors.len()
        invariant
            i <= cursors.len(),
            watched@.len() == i,
            forall|k: int| 0 <= k < i ==> (#[trigger] watched@[k]).watched() == cursors@[k],
        decreases cursors.len() - i,
    {
        watched.push(Watched::new(&cursors[i]));
        i += 1;
    }
    watched
}

/// Watches each of the external sequences.
fn watch_all_sequences(sequences: &Vec<Arc<DependentSequence>>) -> (watched: Vec<WatchedSequence>)
    ensures
        all_sequences_watched(watched@) == sequences@,
{
    let mut watched: Vec<WatchedSequence> = Vec::new();
    let mut i: usize = 0;
    while i < sequences.len()
        invariant
            i <= sequences.len(),
            watched@.len() == i,
            forall|k: int| 0 <= k < i ==> (#[trigger] watched@[k]).watched() == sequences@[k],
        decreases sequences.len() - i,
    {
        watched.push(WatchedSequence::new(&sequences[i]));
        i += 1;
    }
    watched
}

/// Loads each of the cursors and gives the least value.
fn slowest_cursor(cursors: &Vec<Watched>) -> (slowest: Sequence)
    ensures
        exists|values: Seq<Sequence>|
            #[trigger] cursors_show(all_watched(cursors@), values) && is_slowest(values, slowest),
{
    let mut slowest: Sequence = i64::MAX;
    let ghost mut values = Seq::<Sequence>::empty();
    let mut i: usize = 0;
    while i < cursors.len()
        invariant
            i <= cursors.len(),
            cursors_show(all_watched(cursors@).take(i as int), values),
            is_slowest(values, slowest),
        decreases cursors.len() - i,
    {
        let sequence = cursors[i].relaxed_value();
        proof {
            lemma_slowest_push(values, slowest, sequence);
            values = values.push(sequence);
        }
        slowest = slower_of(slowest, sequence);
        i += 1;
    }
    assert(all_watched(cursors@).take(i as int) == all_watched(cursors@));
    slowest
}

/// Barrier tracking a single consumer.
pub struct SingleConsumerBarrier {
    cursor: Watched,
}

/// Barrier tracking the minimum sequence of a group of consumers.
pub struct MultiConsumerBarrier {
    cursors: Vec<Watched>,
}

/// Barrier that tracks minimum of a group of consumers plus optional external gating sequences.
pub struct MultiConsumerDependentsBarrier {
    cursors: Vec<Watched>,
    dependent_sequences: Vec<WatchedSequence>,
}

impl SingleConsumerBarrier {
    /// The cursor that the barrier watches.
    pub closed spec fn watches(&self) -> Arc<Cursor> {
        self.cursor.watched()
    }

    /// A barrier that watches the cursor.
    pub fn new(cursor: Arc<Cursor>) -> (barrier: Self)
        ensures
            barrier.watches() == cursor,
    {
        SingleConsumerBarrier { cursor: Watched::new(&cursor) }
    }
}

impl Barrier for SingleConsumerBarrier {
    open spec fn observes(&self, lower_bound: Sequence, sequence: Sequence) -> bool {
        self.watches().shows(sequence)
    }

    fn get_after(&self, lower_bound: Sequence) -> (sequence: Sequence) {
        self.cursor.relaxed_value()
    }
}

impl MultiConsumerBarrier {
    /// The cursors that the barrier watches.
    pub closed spec fn watches(&self) -> Seq<Arc<Cursor>> {
        all_watched(self.cursors@)
    }

    /// A barrier that watches the cursors.
    pub fn new(cursors: Vec<Arc<Cursor>>) -> (barrier: Self)
        ensures
            barrier.watches() == cursors@,
    {
        MultiConsumerBarrier { cursors: watch_all(&cursors) }
    }
}

impl Barrier for MultiConsumerBarrier {
    /// The least of what the cursors show.
    open spec fn observes(&self, lower_bound: Sequence, sequence: Sequence) -> bool {
        exists|values: Seq<Sequence>|
            #[trigger] cursors_show(self.watches(), values) && is_slowest(values, sequence)
    }

    /// Gets the available `Sequence` of the slowest consumer.
    fn get_after(&self, lower_bound: Sequence) -> (sequence: Sequence) {
        let slowest = slowest_cursor(&self.cursors);
        assert(self.watches() == all_watched(self.cursors@));
        slowest
    }
}

impl MultiConsumerDependentsBarrier {
    /// The cursors that the barrier watches.
    pub closed spec fn watches(&self) -> Seq<Arc<Cursor>> {
        all_watched(self.cursors@)
    }

    /// The external sequences that the barrier watches.
    pub closed spec fn gated_by(&self) -> Seq<Arc<DependentSequence>> {
        all_sequences_watched(self.dependent_sequences@)
    }

    /// A barrier that watches the cursors and the external sequences.
    pub fn new(
        cursors: Vec<Arc<Cursor>>,
        dependent_sequences: Vec<Arc<DependentSequence>>,
    ) -> (barrier: Self)
        ensures
            barrier.watches() == cursors@,
            barrier.gated_by() == dependent_sequences@,
    {
        MultiConsumerDependentsBarrier {
            cursors: watch_all(&cursors),
            dependent_sequences: watch_all_sequences(&dependent_sequences),
        }
    }
}

impl Barrier for MultiConsumerDependentsBarrier {
    /// The least of what the cursors and the external sequences show.
    open spec fn observes(&self, lower_bound: Sequence, sequence: Sequence) -> bool {
        exists|values: Seq<Sequence>, gates: Seq<Sequence>|
            {
                &&& #[trigger] cursors_show(self.watches(), values)
                &&& #[trigger] dependents_show(self.gated_by(), gates)
                &&& is_slowest(values + gates, sequence)
            }
    }

    /// Gets the least sequence of the consumers and of the external sequences.
    fn get_after(&self, lower_bound: Sequence) -> (sequence: Sequence) {
        let mut slowest = slowest_cursor(&self.cursors);
        let ghost values = choose|values: Seq<Sequence>|
            #[trigger] cursors_show(all_watched(self.cursors@), values) && is_slowest(values, slowest);
        let ghost mut gates = Seq::<Sequence>::empty();
        assert(values + gates == values);
        let mut i: usize = 0;
        while i < self.dependent_sequences.len()
            invariant
                i <= self.dependent_sequences.len(),
                dependents_show(
                    all_sequences_watched(self.dependent_sequences@).take(i as int),
                    gates,
                ),
                is_slowest(values + gates, slowest),
            decreases self.dependent_sequences.len() - i,
        {
            let sequence = self.dependent_sequences[i].get();
            proof {
                lemma_slowest_push(values + gates, slowest, sequence);
                assert((values + gates).push(sequence) == values + gates.push(sequence));
                gates = gates.push(sequence);
            }
            slowest = slower_of(slowest, sequence);
            i += 1;
        }
        assert(self.gated_by().take(i as int) == self.gated_by());
        assert(cursors_show(self.watches(), values) && dependents_show(self.gated_by(), gates));
        slowest
    }
}

/// The sink took the events from `first` on, one after the other. `sinks` are its states, from
/// before the first event to after the last one; `uppers` are the sequences that end a batch.
pub open spec fn passed<E, S: EventSink<E>>(
    ring_buffer: &RingBuffer<E>,
    first: int,
    sinks: Seq<S>,
    uppers: Seq<Sequence>,
) -> bool {
    forall|k: int|
        0 <= k < sinks.len() - 1 ==> #[trigger] passed_at(ring_buffer, first, sinks, uppers, k)
}

/// The sink took the event that comes after so many others.
pub open spec fn passed_at<E, S: EventSink<E>>(
    ring_buffer: &RingBuffer<E>,
    first: int,
    sinks: Seq<S>,
    uppers: Seq<Sequence>,
    k: int,
) -> bool {
    sinks[k].takes(
        &ring_buffer.event_at(first + k),
        (first + k) as Sequence,
        uppers.contains((first + k) as Sequence),
        &sinks[k + 1],
    )
}

/// A sink of which the property holds takes every event, and the property holds of it after that.
pub open spec fn goes_on_taking<E, S: EventSink<E>>(property: spec_fn(S) -> bool) -> bool {
    forall|sink: S|
        {
            &&& #[trigger] property(sink) ==> forall|
                event: &E,
                sequence: Sequence,
                end_of_batch: bool,
            |
                #[trigger] sink.accepts(event, sequence, end_of_batch)
            &&& property(sink) ==> forall|
                event: &E,
                sequence: Sequence,
                end_of_batch: bool,
                after: S,
            |
                #[trigger] sink.takes(event, sequence, end_of_batch, &after) ==> property(after)
        }
}

/// The sink takes every event, one after the other.
pub open spec fn takes_all<E, S: EventSink<E>>(sink: S) -> bool {
    exists|property: spec_fn(S) -> bool| #[trigger]
        goes_on_taking::<E, S>(property) && property(sink)
}

/// A closure that can be called with every event takes all.
pub proof fn closures_take_all<E, F: FnMut(&E, Sequence, bool) + Send>(event_handler: F)
    requires
        forall|event: &E, sequence: Sequence, end_of_batch: bool| #[trigger]
            call_requires(event_handler, (event, sequence, end_of_batch)),
    ensures
        takes_all::<E, HandlerSink<F>>(HandlerSink { event_handler }),
{
    let property = |sink: HandlerSink<F>| sink.event_handler == event_handler;
    assert(goes_on_taking::<E, HandlerSink<F>>(property));
}

/// A closure that can be called with every state and every event takes all.
pub proof fn stateful_closures_take_all<E, T, F: FnMut(&mut T, &E, Sequence, bool) + Send>(
    event_handler: F,
    state: T,
)
    requires
        forall|handed: &mut T, event: &E, sequence: Sequence, end_of_batch: bool| #[trigger]
            call_requires(event_handler, (handed, event, sequence, end_of_batch)),
    ensures
        takes_all::<E, StatefulSink<F, T>>(StatefulSink { event_handler, state }),
{
    let property = |sink: StatefulSink<F, T>| sink.event_handler == event_handler;
    assert(goes_on_taking::<E, StatefulSink<F, T>>(property));
}

/// The sink went from `before` to `after` by taking the events from `first` to `upper`, of which
/// the last one ends the batch.
pub open spec fn batch_passed<E, S: EventSink<E>>(
    ring_buffer: &RingBuffer<E>,
    first: int,
    upper: Sequence,
    before: S,
    after: S,
) -> bool {
    exists|sinks: Seq<S>|
        {
            &&& sinks.len() == upper - first + 2
            &&& sinks[0] == before
            &&& sinks.last() == after
            &&& #[trigger] passed(ring_buffer, first, sinks, seq![upper])
        }
}

/// The handling of the event with the sequence, in a batch that ends with `upper`.
pub open spec fn handling<E>(ring_buffer: &RingBuffer<E>, sequence: int, upper: Sequence) -> Act<E> {
    Act::Handled {
        event: ring_buffer.event_at(sequence),
        sequence: sequence as Sequence,
        end_of_batch: sequence == upper,
    }
}

/// The handling of the events from `first` to `upper`, in order and each once.
pub open spec fn batch_acts<E>(
    ring_buffer: &RingBuffer<E>,
    first: int,
    upper: Sequence,
) -> Seq<Act<E>> {
    Seq::new((upper - first + 1) as nat, |k: int| handling(ring_buffer, first + k, upper))
}

/// Passes the events from `first` to `upper` to the sink, in order.
pub fn process_batch<E, W, S: EventSink<E>, N>(
    desk: &mut Desk<E, W, S, N>,
    ring_buffer: &RingBuffer<E>,
    first: Sequence,
    upper: Sequence,
)
    requires
        takes_all::<E, S>(old(desk).passes_to()),
        first <= upper,
    ensures
        takes_all::<E, S>(final(desk).passes_to()),
        batch_passed(
            ring_buffer,
            first as int,
            upper,
            old(desk).passes_to(),
            final(desk).passes_to(),
        ),
        final(desk).did(old(desk), batch_acts(ring_buffer, first as int, upper)),
        final(desk).waits_with() == old(desk).waits_with(),
{
    let ghost property = choose|property: spec_fn(S) -> bool| #[trigger]
        goes_on_taking::<E, S>(property) && property(desk.passes_to());
    let ghost mut sinks = seq![desk.passes_to()];
    let ghost uppers = seq![upper];
    let mut sequence: Sequence = first;
    assert(batch_acts(ring_buffer, first as int, upper).take(0) == Seq::<Act<E>>::empty());
    loop
        invariant_except_break
            sinks.len() == sequence - first + 1,
            desk.did(
                old(desk),
                batch_acts(ring_buffer, first as int, upper).take(sequence - first),
            ),
        invariant
            goes_on_taking::<E, S>(property),
            property(desk.passes_to()),
            first <= sequence <= upper,
            sinks.len() > 0,
            sinks[0] == old(desk).passes_to(),
            sinks.last() == desk.passes_to(),
            desk.waits_with() == old(desk).waits_with(),
            uppers == seq![upper],
            passed(ring_buffer, first as int, sinks, uppers),
        ensures
            sinks.len() == upper - first + 2,
            desk.did(old(desk), batch_acts(ring_buffer, first as int, upper)),
        decreases upper - sequence,
    {
        let end_of_batch = sequence == upper;
        let event = ring_buffer.get(sequence);
        desk.handle(event, sequence, end_of_batch);
        proof {
            let before = sinks;
            sinks = sinks.push(desk.passes_to());
            assert forall|k: int| 0 <= k < sinks.len() - 1 implies #[trigger] passed_at(
                ring_buffer,
                first as int,
                sinks,
                uppers,
                k,
            ) by {
                if k < before.len() - 1 {
                    assert(passed_at(ring_buffer, first as int, before, uppers, k));
                    assert(before[k] == sinks[k] && before[k + 1] == sinks[k + 1]);
                } else {
                    assert(uppers[0] == upper);
                }
            }
            let acts = batch_acts(ring_buffer, first as int, upper);
            let done = sequence - first;
            assert(acts.take(done) + seq![handling(ring_buffer, sequence as int, upper)]
                == acts.take(done + 1));
            assert(desk.acts() == old(desk).acts() + acts.take(done + 1));
            assert(end_of_batch ==> acts.take(done + 1) == acts);
        }
        if end_of_batch {
            break;
        }
        sequence += 1;
    }
}

/// Why a processor stopped.
#[derive(Debug, Clone, Copy, PartialEq, Eq, Structural)]
pub enum ProcessorExit {
    /// The disruptor was shut down, and every event before that was handled.
    Shutdown,
    /// The waiter timed out so often that the processor gives its caller the chance to stop it.
    TimedOut,
    /// The greatest sequence was handled. There is none after it.
    SequencesExhausted,
}

/// What the outcome of a wait for `sequence` leads to. Available events are handled; then, and only
/// then, the cursor is moved to the last of them, and those are woken who wait for the cursor. A
/// shutdown and a timeout lead to nothing.
pub open spec fn outcome_acts<E>(
    ring_buffer: &RingBuffer<E>,
    sequence: int,
    outcome: WaitOutcome,
) -> Seq<Act<E>> {
    match outcome {
        WaitOutcome::Available { upper } => if upper >= sequence {
            batch_acts(ring_buffer, sequence, upper) + seq![Act::Moved { to: upper }, Act::Woken]
        } else {
            seq![Act::Moved { to: (sequence - 1) as Sequence }, Act::Woken]
        },
        WaitOutcome::Shutdown => Seq::empty(),
        WaitOutcome::Timeout => Seq::empty(),
    }
}

/// Does what the outcome of a wait for `sequence` calls for. Available events are passed to the
/// sink, the cursor is moved to the last of them, and those are woken who wait for the cursor. A
/// shutdown ends the processor; a timeout changes nothing.
pub fn process_outcome<E, W, S: EventSink<E>, N: WakeupNotifier>(
    outcome: WaitOutcome,
    desk: &mut Desk<E, W, S, N>,
    ring_buffer: &RingBuffer<E>,
    sequence: &mut Sequence,
) -> (exit: Option<ProcessorExit>)
    requires
        takes_all::<E, S>(old(desk).passes_to()),
        *old(sequence) >= 0,
    ensures
        takes_all::<E, S>(final(desk).passes_to()),
        final(desk).did(
            old(desk),
            outcome_acts(ring_buffer, *old(sequence) as int, outcome),
        ),
        final(desk).waits_with() == old(desk).waits_with(),
        match outcome {
            WaitOutcome::Available { upper } => if upper >= *old(sequence) {
                &&& batch_passed(
                    ring_buffer,
                    *old(sequence) as int,
                    upper,
                    old(desk).passes_to(),
                    final(desk).passes_to(),
                )
                &&& if upper < i64::MAX {
                    exit is None && *final(sequence) == upper + 1
                } else {
                    exit == Some(ProcessorExit::SequencesExhausted) && *final(sequence) == upper
                }
            } else {
                &&& final(desk).passes_to() == old(desk).passes_to()
                &&& exit is None
                &&& *final(sequence) == *old(sequence)
            },
            WaitOutcome::Shutdown => {
                &&& exit == Some(ProcessorExit::Shutdown)
                &&& final(desk).passes_to() == old(desk).passes_to()
                &&& *final(sequence) == *old(sequence)
            },
            WaitOutcome::Timeout => {
                &&& exit is None
                &&& final(desk).passes_to() == old(desk).passes_to()
                &&& *final(sequence) == *old(sequence)
            },
        },
{
    let ghost acts = outcome_acts(ring_buffer, *sequence as int, outcome);
    match outcome {
        WaitOutcome::Available { upper } => {
            if upper < *sequence {
                desk.move_cursor(*sequence - 1);
                desk.wake();
                assert(desk.acts() == old(desk).acts() + acts);
                return None;
            }
            process_batch(desk, ring_buffer, *sequence, upper);
            desk.move_cursor(upper);
            desk.wake();
            assert(desk.acts() == old(desk).acts() + acts);
            if upper == i64::MAX {
                *sequence = upper;
                return Some(ProcessorExit::SequencesExhausted);
            }
            *sequence = upper + 1;
            None
        },
        WaitOutcome::Shutdown => {
            assert(desk.acts() == old(desk).acts() + acts);
            Some(ProcessorExit::Shutdown)
        },
        WaitOutcome::Timeout => {
            assert(desk.acts() == old(desk).acts() + acts);
            None
        },
    }
}

/// How many timeouts of its waiter a processor bears before it stops.
pub const TIMEOUT_LIMIT: u64 = 0xffff_ffff_ffff_ffff;

/// The sequence after the batches that ended with `uppers`, the first of which began with
/// `first`.
pub open spec fn sequence_after(first: int, uppers: Seq<Sequence>) -> int {
    if uppers.len() == 0 {
        first
    } else {
        uppers.last() + 1
    }
}

/// The batches of a processor that began with `first`. Each begins where the one before it ended,
/// holds at least one event, and ends with a sequence that the barrier gave to a waiter for its
/// first event.
pub open spec fn batches_taken<B: Barrier>(
    barrier: &B,
    first: int,
    uppers: Seq<Sequence>,
) -> bool {
    forall|i: int|
        0 <= i < uppers.len() ==> #[trigger] batch_fits(barrier, first, uppers, i)
}

/// The batch with the index begins where the one before it ended, holds at least one event, and
/// ends with a sequence that the barrier gave to a waiter for its first event.
pub open spec fn batch_fits<B: Barrier>(
    barrier: &B,
    first: int,
    uppers: Seq<Sequence>,
    i: int,
) -> bool {
    let requested = sequence_after(first, uppers.take(i));
    &&& requested <= uppers[i]
    &&& barrier.observes(requested as Sequence, uppers[i])
}

/// What a processor did that began with the sequence `first`: it took batches and passed the events
/// of all of them to the sink in the order of their sequences, each once.
pub open spec fn processed<E, S: EventSink<E>, B: Barrier>(
    barrier: &B,
    ring_buffer: &RingBuffer<E>,
    first: int,
    uppers: Seq<Sequence>,
    sinks: Seq<S>,
) -> bool {
    &&& batches_taken(barrier, first, uppers)
    &&& sinks.len() == sequence_after(first, uppers) - first + 1
    &&& passed(ring_buffer, first, sinks, uppers)
}

/// The ends of the batches that the answers of a waiter brought.
pub open spec fn uppers_of(answers: Seq<WaitOutcome>) -> Seq<Sequence>
    decreases answers.len(),
{
    if answers.len() == 0 {
        Seq::empty()
    } else {
        match answers.last() {
            WaitOutcome::Available { upper } => uppers_of(answers.drop_last()).push(upper),
            _ => uppers_of(answers.drop_last()),
        }
    }
}

/// How many of the answers are timeouts.
pub open spec fn timeouts_in(answers: Seq<WaitOutcome>) -> nat
    decreases answers.len(),
{
    if answers.len() == 0 {
        0
    } else {
        timeouts_in(answers.drop_last()) + if answers.last() is Timeout {
            1nat
        } else {
            0nat
        }
    }
}

/// All that a processor does whose waiter gives these answers, from the sequence `first` on: it asks
/// for the first event that was not handled yet, does what the answer leads to, and asks again.
pub open spec fn acts_of<E>(
    ring_buffer: &RingBuffer<E>,
    first: int,
    answers: Seq<WaitOutcome>,
) -> Seq<Act<E>>
    decreases answers.len(),
{
    if answers.len() == 0 {
        Seq::empty()
    } else {
        let before = answers.drop_last();
        let sequence = sequence_after(first, uppers_of(before));
        acts_of(ring_buffer, first, before) + seq![
            Act::Asked { requested: sequence as Sequence, outcome: answers.last() },
        ] + outcome_acts(ring_buffer, sequence, answers.last())
    }
}

/// The waiter was asked in turn, each time for the first event that was not handled yet, and
/// reported these answers. `waiters` are its states, from before the first wait to after the last.
pub open spec fn asked_in_turn<W: Waiter>(
    answers: Answers,
    shutdown: &CachePadded<AtomicI64>,
    first: int,
    reported: Seq<WaitOutcome>,
    waiters: Seq<W>,
) -> bool {
    &&& waiters.len() == reported.len() + 1
    &&& forall|i: int|
        0 <= i < reported.len() ==> #[trigger] asked_at(
            answers,
            shutdown,
            first,
            reported,
            waiters,
            i,
        )
}

/// The waiter was asked for the first event that was not handled after so many answers, and reported
/// the answer that follows.
pub open spec fn asked_at<W: Waiter>(
    answers: Answers,
    shutdown: &CachePadded<AtomicI64>,
    first: int,
    reported: Seq<WaitOutcome>,
    waiters: Seq<W>,
    i: int,
) -> bool {
    waiters[i].reports(
        sequence_after(first, uppers_of(reported.take(i))) as Sequence,
        answers,
        shutdown,
        reported[i],
        &waiters[i + 1],
    )
}

/// A processor was run that began with the sequence `first`, and its waiter gave these answers.
pub open spec fn ran<E, W: Waiter, S: EventSink<E>, N, B: Barrier>(
    before: &Desk<E, W, S, N>,
    after: &Desk<E, W, S, N>,
    barrier: &B,
    shutdown: &CachePadded<AtomicI64>,
    ring_buffer: &RingBuffer<E>,
    first: int,
    answers: Seq<WaitOutcome>,
) -> bool {
    &&& after.did(before, acts_of(ring_buffer, first, answers))
    &&& exists|waiters: Seq<W>|
        {
            &&& #[trigger] asked_in_turn(answers_of(barrier), shutdown, first, answers, waiters)
            &&& waiters[0] == before.waits_with()
            &&& waiters.last() == after.waits_with()
        }
    &&& exists|sinks: Seq<S>|
        {
            &&& #[trigger] processed(barrier, ring_buffer, first, uppers_of(answers), sinks)
            &&& sinks[0] == before.passes_to()
            &&& sinks.last() == after.passes_to()
        }
}

/// The answer ends a processor: the disruptor is shut down, or no sequence is left.
pub open spec fn is_final(answer: WaitOutcome) -> bool {
    answer is Shutdown || answer == (WaitOutcome::Available { upper: i64::MAX })
}

/// A processor stops with the first answer that ends it, or with the timeout that is one too many.
pub open spec fn stops(answers: Seq<WaitOutcome>, exit: ProcessorExit) -> bool {
    &&& answers.len() > 0
    &&& forall|i: int| 0 <= i < answers.len() - 1 ==> !is_final(#[trigger] answers[i])
    &&& match exit {
        ProcessorExit::Shutdown => answers.last() is Shutdown,
        ProcessorExit::SequencesExhausted => answers.last() == (WaitOutcome::Available {
            upper: i64::MAX,
        }),
        ProcessorExit::TimedOut => answers.last() is Timeout && timeouts_in(answers)
            == TIMEOUT_LIMIT,
    }
}

/// The sequence that a processor goes on with that began with `first` and whose waiter gave these
/// answers. After the greatest sequence it stays there.
pub open spec fn goes_on_with(first: int, answers: Seq<WaitOutcome>) -> int {
    let next = sequence_after(first, uppers_of(answers));
    if next > i64::MAX {
        i64::MAX as int
    } else {
        next
    }
}

/// The events of a further batch, passed to the sink, follow those of the batches before.
proof fn lemma_batch_follows<E, S: EventSink<E>, B: Barrier>(
    barrier: &B,
    ring_buffer: &RingBuffer<E>,
    first: int,
    uppers: Seq<Sequence>,
    sinks: Seq<S>,
    upper: Sequence,
    after: S,
) -> (all: Seq<S>)
    requires
        processed(barrier, ring_buffer, first, uppers, sinks),
        sinks.len() > 0,
        first >= 0,
        sequence_after(first, uppers) <= upper,
        barrier.observes(sequence_after(first, uppers) as Sequence, upper),
        batch_passed(ring_buffer, sequence_after(first, uppers), upper, sinks.last(), after),
    ensures
        processed(barrier, ring_buffer, first, uppers.push(upper), all),
        all.len() > 0,
        all[0] == sinks[0],
        all.last() == after,
{
    let next = sequence_after(first, uppers);
    let more = choose|more: Seq<S>|
        {
            &&& more.len() == upper - next + 2
            &&& more[0] == sinks.last()
            &&& more.last() == after
            &&& #[trigger] passed(ring_buffer, next, more, seq![upper])
        };
    let all = sinks + more.skip(1);
    let uppers_all = uppers.push(upper);
    assert(batches_taken(barrier, first, uppers_all)) by {
        assert forall|i: int| 0 <= i < uppers_all.len() implies #[trigger] batch_fits(
            barrier,
            first,
            uppers_all,
            i,
        ) by {
            assert(uppers_all.take(i) == uppers.take(i));
            if i < uppers.len() {
                assert(batch_fits(barrier, first, uppers, i));
                assert(uppers_all[i] == uppers[i]);
            } else {
                assert(uppers.take(i) == uppers);
            }
        }
    }
    lemma_uppers_below(barrier, first, uppers);
    assert forall|k: int| 0 <= k < all.len() - 1 implies #[trigger] passed_at(
        ring_buffer,
        first,
        all,
        uppers_all,
        k,
    ) by {
        let s = (first + k) as Sequence;
        let n = sinks.len() - 1;
        if k < n {
            assert(passed_at(ring_buffer, first, sinks, uppers, k));
            assert(all[k] == sinks[k] && all[k + 1] == sinks[k + 1]);
            assert(uppers_all.contains(s) == uppers.contains(s)) by {
                if uppers.contains(s) {
                    let i = uppers.index_of(s);
                    assert(uppers_all[i] == s);
                }
            }
        } else {
            assert(passed_at(ring_buffer, next, more, seq![upper], k - n));
            assert(all[k] == more[k - n] && all[k + 1] == more[k - n + 1]);
            assert(next + (k - n) == first + k);
            assert(uppers_all.contains(s) == seq![upper].contains(s)) by {
                assert(seq![upper][0] == upper);
                assert(uppers_all[uppers.len() as int] == upper);
            }
        }
    }
    all
}

/// The first batches of a processor are batches of a processor.
pub proof fn lemma_batches_prefix<B: Barrier>(
    barrier: &B,
    first: int,
    uppers: Seq<Sequence>,
    n: int,
)
    requires
        batches_taken(barrier, first, uppers),
        0 <= n <= uppers.len(),
    ensures
        batches_taken(barrier, first, uppers.take(n)),
{
    let start = uppers.take(n);
    assert forall|i: int| 0 <= i < start.len() implies #[trigger] batch_fits(
        barrier,
        first,
        start,
        i,
    ) by {
        assert(batch_fits(barrier, first, uppers, i));
        assert(start.take(i) == uppers.take(i));
    }
}

/// Every batch ended before the sequence that comes next.
pub proof fn lemma_uppers_below<B: Barrier>(barrier: &B, first: int, uppers: Seq<Sequence>)
    requires
        batches_taken(barrier, first, uppers),
    ensures
        forall|i: int| 0 <= i < uppers.len() ==> #[trigger] uppers[i] < sequence_after(first, uppers),
        first <= sequence_after(first, uppers),
    decreases uppers.len(),
{
    if uppers.len() > 0 {
        let before = uppers.drop_last();
        assert(uppers.take(uppers.len() - 1) == before);
        lemma_batches_prefix(barrier, first, uppers, uppers.len() - 1);
        assert(batch_fits(barrier, first, uppers, uppers.len() - 1));
        lemma_uppers_below(barrier, first, before);
        assert forall|i: int| 0 <= i < uppers.len() implies #[trigger] uppers[i]
            < sequence_after(first, uppers) by {
            if i < before.len() {
                assert(before[i] == uppers[i]);
            }
        }
    }
}

/// One more answer of the waiter.
proof fn lemma_answer<E, W: Waiter>(
    answers: Answers,
    shutdown: &CachePadded<AtomicI64>,
    ring_buffer: &RingBuffer<E>,
    first: int,
    reported: Seq<WaitOutcome>,
    waiters: Seq<W>,
    answer: WaitOutcome,
    after: W,
)
    requires
        asked_in_turn(answers, shutdown, first, reported, waiters),
        waiters.last().reports(
            sequence_after(first, uppers_of(reported)) as Sequence,
            answers,
            shutdown,
            answer,
            &after,
        ),
    ensures
        asked_in_turn(answers, shutdown, first, reported.push(answer), waiters.push(after)),
        acts_of(ring_buffer, first, reported.push(answer)) == acts_of(ring_buffer, first, reported)
            + seq![
            Act::Asked {
                requested: sequence_after(first, uppers_of(reported)) as Sequence,
                outcome: answer,
            },
        ] + outcome_acts(ring_buffer, sequence_after(first, uppers_of(reported)), answer),
        uppers_of(reported.push(answer)) == match answer {
            WaitOutcome::Available { upper } => uppers_of(reported).push(upper),
            _ => uppers_of(reported),
        },
        timeouts_in(reported.push(answer)) == timeouts_in(reported) + if answer is Timeout {
            1nat
        } else {
            0nat
        },
{
    let more = reported.push(answer);
    let more_waiters = waiters.push(after);
    assert(more.drop_last() == reported);
    assert forall|i: int| 0 <= i < more.len() implies #[trigger] asked_at(
        answers,
        shutdown,
        first,
        more,
        more_waiters,
        i,
    ) by {
        assert(more.take(i) == reported.take(i));
        if i < reported.len() {
            assert(asked_at(answers, shutdown, first, reported, waiters, i));
            assert(more_waiters[i] == waiters[i] && more_waiters[i + 1] == waiters[i + 1]);
        } else {
            assert(reported.take(i) == reported);
        }
    }
}

/// Waits for events and passes them to the sink until the disruptor is shut down.
///
/// `sequence` is the first event to wait for. Afterwards it is the one to go on with, so that a
/// processor that stopped for a timeout can be run again.
pub fn run_processor_loop<E, B, W, S, N>(
    desk: &mut Desk<E, W, S, N>,
    barrier: &B,
    shutdown_at_sequence: &CachePadded<AtomicI64>,
    ring_buffer: &RingBuffer<E>,
    sequence: &mut Sequence,
) -> (exit: ProcessorExit) where
    B: Barrier,
    W: Waiter,
    S: EventSink<E>,
    N: WakeupNotifier,

    requires
        takes_all::<E, S>(old(desk).passes_to()),
        *old(sequence) >= 0,
    ensures
        takes_all::<E, S>(final(desk).passes_to()),
        exists|answers: Seq<WaitOutcome>|
            {
                &&& #[trigger] ran(
                    old(desk),
                    final(desk),
                    barrier,
                    shutdown_at_sequence,
                    ring_buffer,
                    *old(sequence) as int,
                    answers,
                )
                &&& stops(answers, exit)
                &&& *final(sequence) == goes_on_with(*old(sequence) as int, answers)
            },
        exit is Shutdown ==> loaded(*shutdown_at_sequence, *final(sequence)),
        *final(sequence) >= *old(sequence),
{
    let ghost first = *sequence as int;
    let ghost mut answers = Seq::<WaitOutcome>::empty();
    let ghost mut waiters = seq![desk.waits_with()];
    let ghost mut sinks = seq![desk.passes_to()];
    let mut timeouts_left: u64 = TIMEOUT_LIMIT;
    assert(desk.acts() == old(desk).acts() + acts_of(ring_buffer, first, answers));
    while timeouts_left > 0
        invariant
            takes_all::<E, S>(desk.passes_to()),
            first == *old(sequence),
            first >= 0,
            *sequence >= first,
            *sequence == sequence_after(first, uppers_of(answers)),
            desk.did(old(desk), acts_of(ring_buffer, first, answers)),
            asked_in_turn(answers_of(barrier), shutdown_at_sequence, first, answers, waiters),
            waiters[0] == old(desk).waits_with(),
            waiters.last() == desk.waits_with(),
            processed(barrier, ring_buffer, first, uppers_of(answers), sinks),
            sinks.len() > 0,
            sinks[0] == old(desk).passes_to(),
            sinks.last() == desk.passes_to(),
            forall|i: int| 0 <= i < answers.len() ==> !is_final(#[trigger] answers[i]),
            timeouts_in(answers) + timeouts_left == TIMEOUT_LIMIT,
            timeouts_left == 0 ==> answers.len() > 0 && answers.last() is Timeout,
        decreases i64::MAX - *sequence, timeouts_left,
    {
        let ghost requested = *sequence as int;
        let outcome = desk.wait(*sequence, barrier, shutdown_at_sequence);
        let exit = process_outcome(outcome, desk, ring_buffer, sequence);
        proof {
            let uppers = uppers_of(answers);
            lemma_answer(
                answers_of(barrier),
                shutdown_at_sequence,
                ring_buffer,
                first,
                answers,
                waiters,
                outcome,
                desk.waits_with(),
            );
            if let WaitOutcome::Available { upper } = outcome {
                sinks = lemma_batch_follows(
                    barrier,
                    ring_buffer,
                    first,
                    uppers,
                    sinks,
                    upper,
                    desk.passes_to(),
                );
            }
            answers = answers.push(outcome);
            waiters = waiters.push(desk.waits_with());
            assert(desk.acts() == old(desk).acts() + acts_of(ring_buffer, first, answers));
        }
        if let WaitOutcome::Timeout = outcome {
            timeouts_left -= 1;
        }
        if let Some(exit) = exit {
            assert(ran(
                old(desk),
                desk,
                barrier,
                shutdown_at_sequence,
                ring_buffer,
                first,
                answers,
            ));
            return exit;
        }
    }
    assert(ran(
        old(desk),
        desk,
        barrier,
        shutdown_at_sequence,
        ring_buffer,
        first,
        answers,
    ));
    ProcessorExit::TimedOut
}

} // verus!
