//! Laws of the stages: how far one may read that comes after others, and what it handles.

use crate::atomics::loaded_acquire;
use crate::barrier::Barrier;
use crate::consumer::{
    batch_fits, batches_taken, cursors_show, dependents_show, is_slowest, lemma_batches_prefix,
    lemma_uppers_below, passed, passed_at, processed, sequence_after, MultiConsumerBarrier,
    MultiConsumerDependentsBarrier, SingleConsumerBarrier,
};
use crate::cursor::Cursor;
use crate::event_handler::EventSink;
use crate::ringbuffer::RingBuffer;
use crate::sequence::{DependentSequence, INITIAL_SEQUENCE};
use crate::wait_strategies::{wait_decision, WaitOutcome};
use crate::Sequence;
use vstd::prelude::*;

verus! {

/// Values have one slowest.
pub proof fn the_slowest_is_unique(values: Seq<Sequence>, one: Sequence, other: Sequence)
    requires
        is_slowest(values, one),
        is_slowest(values, other),
    ensures
        one == other,
{
    if values.len() > 0 {
        let i = choose|i: int| 0 <= i < values.len() && values[i] == one;
        let j = choose|j: int| 0 <= j < values.len() && values[j] == other;
        assert(values[i] == one && values[j] == other);
    }
}

/// Further gates never let a stage read further: it advances to the minimum of all dependencies.
pub proof fn gates_only_hold_back(
    values: Seq<Sequence>,
    gates: Seq<Sequence>,
    without: Sequence,
    with: Sequence,
)
    requires
        is_slowest(values, without),
        is_slowest(values + gates, with),
    ensures
        with <= without,
        forall|i: int| 0 <= i < gates.len() ==> with <= #[trigger] gates[i],
        with == without || gates.contains(with),
{
    let all = values + gates;
    assert forall|i: int| 0 <= i < gates.len() implies with <= #[trigger] gates[i] by {
        assert(all[values.len() + i] == gates[i]);
    }
    if values.len() > 0 {
        let i = choose|i: int| 0 <= i < values.len() && values[i] == without;
        assert(all[i] == without);
    }
    if all.len() > 0 {
        let k = choose|k: int| 0 <= k < all.len() && all[k] == with;
        if k < values.len() {
            assert(values[k] == with);
        } else {
            assert(gates[k - values.len()] == with);
        }
    }
}

/// When those before a stage advance, or one of them moves back, the stage follows: what it may
/// read keeps the order of what they show.
pub proof fn a_stage_follows_those_before_it(
    earlier: Seq<Sequence>,
    later: Seq<Sequence>,
    slowest_earlier: Sequence,
    slowest_later: Sequence,
)
    requires
        earlier.len() == later.len(),
        forall|i: int| 0 <= i < earlier.len() ==> #[trigger] earlier[i] <= #[trigger] later[i],
        is_slowest(earlier, slowest_earlier),
        is_slowest(later, slowest_later),
    ensures
        slowest_earlier <= slowest_later,
{
    if later.len() > 0 {
        let i = choose|i: int| 0 <= i < later.len() && later[i] == slowest_later;
        assert(earlier[i] <= later[i]);
    }
}

/// A gate that was not advanced yet keeps every event from the stage behind it.
pub proof fn a_new_gate_is_closed(
    values: Seq<Sequence>,
    gates: Seq<Sequence>,
    available: Sequence,
    requested: Sequence,
    shutdown_at: Sequence,
)
    requires
        is_slowest(values + gates, available),
        gates.contains(INITIAL_SEQUENCE),
        requested >= 0,
    ensures
        !(wait_decision(requested, available, shutdown_at) matches Some(WaitOutcome::Available { .. })),
{
    let i = choose|i: int| 0 <= i < gates.len() && gates[i] == INITIAL_SEQUENCE;
    assert((values + gates)[values.len() + i] == INITIAL_SEQUENCE);
}

/// A barrier with external gates, but without any, is the barrier of its consumers.
pub proof fn no_gates_gate_nothing(
    gated: MultiConsumerDependentsBarrier,
    plain: MultiConsumerBarrier,
    lower_bound: Sequence,
    sequence: Sequence,
)
    requires
        gated.watches() == plain.watches(),
        gated.gated_by().len() == 0,
    ensures
        gated.observes(lower_bound, sequence) <==> plain.observes(lower_bound, sequence),
{
    let none = Seq::<Sequence>::empty();
    if gated.observes(lower_bound, sequence) {
        let (values, gates) = choose|values: Seq<Sequence>, gates: Seq<Sequence>|
            {
                &&& #[trigger] cursors_show(gated.watches(), values)
                &&& #[trigger] dependents_show(gated.gated_by(), gates)
                &&& is_slowest(values + gates, sequence)
            };
        assert(values + gates == values);
        assert(cursors_show(plain.watches(), values));
    }
    if plain.observes(lower_bound, sequence) {
        let values = choose|values: Seq<Sequence>|
            #[trigger] cursors_show(plain.watches(), values) && is_slowest(values, sequence);
        assert(values + none == values);
        assert(cursors_show(gated.watches(), values) && dependents_show(gated.gated_by(), none));
    }
}

/// The barrier of a group of one is the barrier of that consumer.
pub proof fn a_group_of_one_is_its_member(
    group: MultiConsumerBarrier,
    member: SingleConsumerBarrier,
    lower_bound: Sequence,
    sequence: Sequence,
)
    requires
        group.watches() == seq![member.watches()],
    ensures
        group.observes(lower_bound, sequence) <==> member.observes(lower_bound, sequence),
{
    if group.observes(lower_bound, sequence) {
        let values = choose|values: Seq<Sequence>|
            #[trigger] cursors_show(group.watches(), values) && is_slowest(values, sequence);
        assert(group.watches()[0] == member.watches());
        assert(values[0] == sequence);
    }
    if member.observes(lower_bound, sequence) {
        let values = seq![sequence];
        assert(values[0] == sequence);
        assert(cursors_show(group.watches(), values));
    }
}

/// The consumer had announced in its cursor that it is done with the event.
pub open spec fn announced(cursor: &Cursor, sequence: int) -> bool {
    exists|done: Sequence| sequence <= done && #[trigger] cursor.shows(done)
}

/// The external sequence had been advanced to the event.
pub open spec fn advanced(gate: &DependentSequence, sequence: int) -> bool {
    exists|reached: Sequence|
        sequence <= reached && #[trigger] loaded_acquire(gate.cell(), reached)
}

/// Of what a barrier of a group lets through, every consumer of the group had announced that it is
/// done with it.
pub proof fn a_stage_stays_behind_its_group(
    barrier: MultiConsumerBarrier,
    first: int,
    uppers: Seq<Sequence>,
    sequence: int,
    consumer: int,
)
    requires
        batches_taken(&barrier, first, uppers),
        first <= sequence < sequence_after(first, uppers),
        0 <= consumer < barrier.watches().len(),
    ensures
        announced(&*barrier.watches()[consumer], sequence),
{
    let i = batch_of(&barrier, first, uppers, sequence);
    assert(batch_fits(&barrier, first, uppers, i));
    assert(sequence <= uppers[i]);
    let values = choose|values: Seq<Sequence>|
        #[trigger] cursors_show(barrier.watches(), values) && is_slowest(values, uppers[i]);
    assert(barrier.watches()[consumer].shows(values[consumer]));
    assert(uppers[i] <= values[consumer]);
}

/// Of what a barrier of one consumer lets through, the consumer had announced that it is done with
/// it.
pub proof fn a_stage_stays_behind_a_consumer(
    barrier: SingleConsumerBarrier,
    first: int,
    uppers: Seq<Sequence>,
    sequence: int,
)
    requires
        batches_taken(&barrier, first, uppers),
        first <= sequence < sequence_after(first, uppers),
    ensures
        announced(&*barrier.watches(), sequence),
{
    let i = batch_of(&barrier, first, uppers, sequence);
    assert(batch_fits(&barrier, first, uppers, i));
    assert(sequence <= uppers[i]);
    assert(barrier.watches().shows(uppers[i]));
}

/// Of what a barrier with external gates lets through, every consumer of the group had announced
/// that it is done with it, and every gate had been advanced to it.
pub proof fn a_stage_stays_behind_its_gates(
    barrier: MultiConsumerDependentsBarrier,
    first: int,
    uppers: Seq<Sequence>,
    sequence: int,
)
    requires
        batches_taken(&barrier, first, uppers),
        first <= sequence < sequence_after(first, uppers),
    ensures
        forall|consumer: int|
            0 <= consumer < barrier.watches().len() ==> announced(
                &*#[trigger] barrier.watches()[consumer],
                sequence,
            ),
        forall|gate: int|
            0 <= gate < barrier.gated_by().len() ==> advanced(
                &*#[trigger] barrier.gated_by()[gate],
                sequence,
            ),
{
    let i = batch_of(&barrier, first, uppers, sequence);
    assert(batch_fits(&barrier, first, uppers, i));
    let upper = uppers[i];
    assert(sequence <= upper);
    let (values, gates) = choose|values: Seq<Sequence>, gates: Seq<Sequence>|
        {
            &&& #[trigger] cursors_show(barrier.watches(), values)
            &&& #[trigger] dependents_show(barrier.gated_by(), gates)
            &&& is_slowest(values + gates, upper)
        };
    let all = values + gates;
    assert forall|consumer: int| 0 <= consumer < barrier.watches().len() implies announced(
        &*#[trigger] barrier.watches()[consumer],
        sequence,
    ) by {
        assert(all[consumer] == values[consumer]);
        assert(barrier.watches()[consumer].shows(values[consumer]));
    }
    assert forall|gate: int| 0 <= gate < barrier.gated_by().len() implies advanced(
        &*#[trigger] barrier.gated_by()[gate],
        sequence,
    ) by {
        assert(all[values.len() + gate] == gates[gate]);
        assert(loaded_acquire(barrier.gated_by()[gate].cell(), gates[gate]));
    }
}

/// Each handled event lies in one batch: the first whose end it does not exceed.
pub proof fn batch_of<B: Barrier>(
    barrier: &B,
    first: int,
    uppers: Seq<Sequence>,
    sequence: int,
) -> (batch: int)
    requires
        batches_taken(barrier, first, uppers),
        first <= sequence < sequence_after(first, uppers),
    ensures
        0 <= batch < uppers.len(),
        sequence_after(first, uppers.take(batch)) <= sequence <= uppers[batch],
    decreases uppers.len(),
{
    let last = uppers.len() - 1;
    let before = uppers.drop_last();
    assert(uppers.take(last) == before);
    assert(batch_fits(barrier, first, uppers, last));
    if sequence >= sequence_after(first, before) {
        last
    } else {
        lemma_batches_prefix(barrier, first, uppers, last);
        let batch = batch_of(barrier, first, before, sequence);
        assert(before.take(batch) == uppers.take(batch));
        batch
    }
}

/// The cursor of a processor only moves forward.
pub proof fn batches_go_forward<B: Barrier>(
    barrier: &B,
    first: int,
    uppers: Seq<Sequence>,
    i: int,
    j: int,
)
    requires
        batches_taken(barrier, first, uppers),
        0 <= i < j < uppers.len(),
    ensures
        first <= uppers[i] < uppers[j],
{
    let before = uppers.take(j);
    lemma_batches_prefix(barrier, first, uppers, j);
    lemma_uppers_below(barrier, first, before);
    assert(before[i] == uppers[i]);
    let start = uppers.take(i);
    lemma_batches_prefix(barrier, first, uppers, i);
    lemma_uppers_below(barrier, first, start);
    assert(batch_fits(barrier, first, uppers, i));
    assert(batch_fits(barrier, first, uppers, j));
}

/// A processor that went from `first` to the sequence after its last batch handled every event in
/// between, in the order of the sequences and each once, and the last one ended a batch.
pub proof fn every_event_is_handled_once_in_order<E, S: EventSink<E>, B: Barrier>(
    barrier: &B,
    ring_buffer: &RingBuffer<E>,
    first: int,
    uppers: Seq<Sequence>,
    sinks: Seq<S>,
    sequence: int,
)
    requires
        processed(barrier, ring_buffer, first, uppers, sinks),
        first <= sequence < sequence_after(first, uppers),
    ensures
        sinks.len() == sequence_after(first, uppers) - first + 1,
        sinks[sequence - first].takes(
            &ring_buffer.event_at(sequence),
            sequence as Sequence,
            uppers.contains(sequence as Sequence),
            &sinks[sequence - first + 1],
        ),
        sequence == sequence_after(first, uppers) - 1 ==> uppers.contains(sequence as Sequence),
{
    let k = sequence - first;
    assert(passed_at(ring_buffer, first, sinks, uppers, k));
    assert(uppers[uppers.len() - 1] == uppers.last());
}

/// A processor that stopped and was run again did what one run does: it goes on where it stopped,
/// and no event is skipped or handled again.
pub proof fn a_processor_goes_on_where_it_stopped<
    E,
    S: EventSink<E>,
    B: Barrier,
>(
    barrier: &B,
    ring_buffer: &RingBuffer<E>,
    first: int,
    uppers: Seq<Sequence>,
    sinks: Seq<S>,
    more_uppers: Seq<Sequence>,
    more_sinks: Seq<S>,
)
    requires
        0 <= first,
        processed(barrier, ring_buffer, first, uppers, sinks),
        processed(
            barrier,
            ring_buffer,
            sequence_after(first, uppers),
            more_uppers,
            more_sinks,
        ),
        sequence_after(first, uppers) <= i64::MAX,
        more_sinks[0] == sinks.last(),
    ensures
        processed(
            barrier,
            ring_buffer,
            first,
            uppers + more_uppers,
            sinks + more_sinks.skip(1),
        ),
{
    lemma_batches_join(barrier, first, uppers, more_uppers);
    lemma_uppers_below(barrier, first, uppers);
    lemma_uppers_below(barrier, sequence_after(first, uppers), more_uppers);
    lemma_passed_join(barrier, ring_buffer, first, uppers, sinks, more_uppers, more_sinks);
}

/// The batches of a second run, which began where a first one stopped, follow those of the first.
proof fn lemma_batches_join<B: Barrier>(
    barrier: &B,
    first: int,
    uppers: Seq<Sequence>,
    more_uppers: Seq<Sequence>,
)
    requires
        batches_taken(barrier, first, uppers),
        batches_taken(barrier, sequence_after(first, uppers), more_uppers),
    ensures
        batches_taken(barrier, first, uppers + more_uppers),
        sequence_after(first, uppers + more_uppers) == sequence_after(
            sequence_after(first, uppers),
            more_uppers,
        ),
{
    let all_uppers = uppers + more_uppers;
    let n = uppers.len() as int;
    assert forall|i: int| 0 <= i < all_uppers.len() implies #[trigger] batch_fits(
            barrier,
            first,
            all_uppers,
            i,
        ) by {
        if i < n {
            assert(batch_fits(barrier, first, uppers, i));
            assert(all_uppers[i] == uppers[i]);
            assert(all_uppers.take(i) == uppers.take(i));
        } else {
            assert(batch_fits(barrier, sequence_after(first, uppers), more_uppers, i - n));
            assert(all_uppers[i] == more_uppers[i - n]);
            assert(all_uppers.take(i) == uppers + more_uppers.take(i - n));
            if i > n {
                assert(all_uppers.take(i).last() == more_uppers.take(i - n).last());
            } else {
                assert(all_uppers.take(i) == uppers);
            }
        }
    }
    if more_uppers.len() > 0 {
        assert(all_uppers.last() == more_uppers.last());
    } else {
        assert(all_uppers == uppers);
    }
}

/// The events of a second run, which began where a first one stopped, follow those of the first.
proof fn lemma_passed_join<E, S: EventSink<E>, B: Barrier>(
    barrier: &B,
    ring_buffer: &RingBuffer<E>,
    first: int,
    uppers: Seq<Sequence>,
    sinks: Seq<S>,
    more_uppers: Seq<Sequence>,
    more_sinks: Seq<S>,
)
    requires
        0 <= first,
        batches_taken(barrier, first, uppers),
        batches_taken(barrier, sequence_after(first, uppers), more_uppers),
        sinks.len() == sequence_after(first, uppers) - first + 1,
        more_sinks.len() == sequence_after(sequence_after(first, uppers), more_uppers)
            - sequence_after(first, uppers) + 1,
        first <= sequence_after(first, uppers) <= i64::MAX,
        sequence_after(first, uppers) <= sequence_after(
            sequence_after(first, uppers),
            more_uppers,
        ),
        passed(ring_buffer, first, sinks, uppers),
        passed(ring_buffer, sequence_after(first, uppers), more_sinks, more_uppers),
        more_sinks[0] == sinks.last(),
    ensures
        passed(ring_buffer, first, sinks + more_sinks.skip(1), uppers + more_uppers),
{
    let next = sequence_after(first, uppers);
    let all_uppers = uppers + more_uppers;
    let all = sinks + more_sinks.skip(1);
    let n = sinks.len() - 1;
    assert forall|k: int| 0 <= k < all.len() - 1 implies #[trigger] passed_at(
        ring_buffer,
        first,
        all,
        all_uppers,
        k,
    ) by {
        let s = (first + k) as Sequence;
        assert(s == first + k);
        lemma_in_batches(barrier, first, uppers, next, more_uppers, s);
        if k < n {
            assert(passed_at(ring_buffer, first, sinks, uppers, k));
            assert(all[k] == sinks[k] && all[k + 1] == sinks[k + 1]);
        } else {
            assert(passed_at(ring_buffer, next, more_sinks, more_uppers, k - n));
            assert(all[k] == more_sinks[k - n] && all[k + 1] == more_sinks[k - n + 1]);
            assert(next + (k - n) == first + k);
        }
    }
}

/// A sequence ends a batch of the first run or of the second, depending on which run handled it.
proof fn lemma_in_batches<B: Barrier>(
    barrier: &B,
    first: int,
    uppers: Seq<Sequence>,
    next: int,
    more_uppers: Seq<Sequence>,
    sequence: Sequence,
)
    requires
        next == sequence_after(first, uppers),
        batches_taken(barrier, first, uppers),
        batches_taken(barrier, next, more_uppers),
    ensures
        sequence < next ==> (uppers + more_uppers).contains(sequence) == uppers.contains(sequence),
        sequence >= next ==> (uppers + more_uppers).contains(sequence) == more_uppers.contains(
            sequence,
        ),
{
    let all = uppers + more_uppers;
    let n = uppers.len() as int;
    lemma_uppers_below(barrier, first, uppers);
    assert forall|i: int| 0 <= i < more_uppers.len() implies next <= #[trigger] more_uppers[i] by {
        if i > 0 {
            batches_go_forward(barrier, next, more_uppers, 0, i);
        }
        assert(batch_fits(barrier, next, more_uppers, 0));
        assert(more_uppers.take(0) == Seq::<Sequence>::empty());
        assert(next <= more_uppers[0]);
    }
    if uppers.contains(sequence) {
        let i = uppers.index_of(sequence);
        assert(all[i] == sequence);
    }
    if more_uppers.contains(sequence) {
        let i = more_uppers.index_of(sequence);
        assert(all[n + i] == sequence);
    }
    if all.contains(sequence) {
        let i = all.index_of(sequence);
        if i < n {
            assert(uppers[i] == sequence);
        } else {
            assert(more_uppers[i - n] == sequence);
        }
    }
}

} // verus!
