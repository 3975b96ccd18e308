//! Laws of announcing: a processor announces only what it has handled, and so a later stage gets
//! only what the stages before it have handled.

use crate::barrier::Barrier;
use crate::consumer::desk::{moved_by, Act, Desk};
use crate::consumer::{
    acts_of, batch_acts, batch_fits, batches_taken, handling, lemma_batches_prefix,
    lemma_uppers_below, outcome_acts, ran, run_processor_loop, sequence_after, stops, uppers_of,
    MultiConsumerBarrier, MultiConsumerDependentsBarrier, ProcessorExit, SingleConsumerBarrier,
};
use crate::cursor::Cursor;
use crate::event_handler::EventSink;
use crate::laws::stages::{
    a_stage_stays_behind_a_consumer, a_stage_stays_behind_its_gates,
    a_stage_stays_behind_its_group, announced,
};
use crate::ringbuffer::RingBuffer;
use crate::sequence::INITIAL_SEQUENCE;
use crate::wait_strategies::{WaitOutcome, Waiter, WakeupNotifier};
use crate::Sequence;
use crossbeam_utils::CachePadded;
use std::sync::atomic::AtomicI64;
use vstd::prelude::*;

verus! {

/// The act with the index is the handling of the event with the sequence.
pub open spec fn handled_at<E>(
    acts: Seq<Act<E>>,
    ring_buffer: &RingBuffer<E>,
    sequence: int,
    j: int,
) -> bool {
    &&& 0 <= j < acts.len()
    &&& acts[j] matches Act::Handled { event, sequence: handled, .. } && {
        &&& handled == sequence
        &&& event == ring_buffer.event_at(sequence)
    }
}

/// The event was handled by one of so many acts.
pub open spec fn handled_before<E>(
    acts: Seq<Act<E>>,
    ring_buffer: &RingBuffer<E>,
    sequence: int,
    moment: int,
) -> bool {
    exists|j: int| j < moment && #[trigger] handled_at(acts, ring_buffer, sequence, j)
}

/// The act with the index moved the cursor to the sequence.
pub open spec fn moved_at<E>(acts: Seq<Act<E>>, to: Sequence, k: int) -> bool {
    0 <= k < acts.len() && acts[k] == (Act::<E>::Moved { to })
}

/// The event was handled, and after that the cursor was moved to it or beyond it.
pub open spec fn handled_and_announced<E>(
    acts: Seq<Act<E>>,
    ring_buffer: &RingBuffer<E>,
    sequence: int,
) -> bool {
    exists|j: int, k: int, to: Sequence|
        j < k && sequence <= to && #[trigger] handled_at(acts, ring_buffer, sequence, j)
            && #[trigger] moved_at(acts, to, k)
}

/// The last answer of a waiter, and what comes of it.
proof fn lemma_last_answer<E, B: Barrier>(
    barrier: &B,
    ring_buffer: &RingBuffer<E>,
    first: int,
    answers: Seq<WaitOutcome>,
)
    requires
        answers.len() > 0,
        batches_taken(barrier, first, uppers_of(answers)),
    ensures
        batches_taken(barrier, first, uppers_of(answers.drop_last())),
        first <= sequence_after(first, uppers_of(answers.drop_last())),
        answers.last() matches WaitOutcome::Available { upper } ==> sequence_after(
            first,
            uppers_of(answers.drop_last()),
        ) <= upper,
        sequence_after(first, uppers_of(answers)) == match answers.last() {
            WaitOutcome::Available { upper } => upper + 1,
            _ => sequence_after(first, uppers_of(answers.drop_last())),
        },
{
    let before = answers.drop_last();
    let uppers = uppers_of(answers);
    let uppers_before = uppers_of(before);
    if let WaitOutcome::Available { upper } = answers.last() {
        lemma_batches_prefix(barrier, first, uppers, uppers.len() - 1);
        assert(batch_fits(barrier, first, uppers, uppers.len() - 1));
        assert(uppers.take(uppers.len() - 1) == uppers_before);
    }
    lemma_uppers_below(barrier, first, uppers_before);
}

/// Every event before the one that a processor goes on with was handled.
proof fn lemma_all_handled<E, B: Barrier>(
    barrier: &B,
    ring_buffer: &RingBuffer<E>,
    first: int,
    answers: Seq<WaitOutcome>,
    sequence: int,
) -> (j: int)
    requires
        0 <= first,
        batches_taken(barrier, first, uppers_of(answers)),
        first <= sequence < sequence_after(first, uppers_of(answers)),
    ensures
        handled_at(acts_of(ring_buffer, first, answers), ring_buffer, sequence, j),
    decreases answers.len(),
{
    lemma_last_answer(barrier, ring_buffer, first, answers);
    let before = answers.drop_last();
    let next = sequence_after(first, uppers_of(before));
    let earlier = acts_of(ring_buffer, first, before);
    let all = acts_of(ring_buffer, first, answers);
    let asked = seq![
        Act::<E>::Asked { requested: next as Sequence, outcome: answers.last() },
    ];
    let outcome = outcome_acts(ring_buffer, next, answers.last());
    assert(all == earlier + asked + outcome);
    if sequence < next {
        let j = lemma_all_handled(barrier, ring_buffer, first, before, sequence);
        assert(all[j] == earlier[j]);
        j
    } else {
        let upper = answers.last()->upper;
        let j = earlier.len() + 1 + (sequence - next);
        assert(all[j] == outcome[sequence - next]);
        assert(outcome[sequence - next] == batch_acts(ring_buffer, next, upper)[sequence - next]);
        assert(next + (sequence - next) == sequence);
        assert(all[j] == handling(ring_buffer, sequence, upper));
        j
    }
}

/// A processor announces only what it has handled: before it moves its cursor to a sequence it has
/// handled every event up to that sequence.
pub proof fn only_what_was_handled_is_announced<E, B: Barrier>(
    barrier: &B,
    ring_buffer: &RingBuffer<E>,
    first: int,
    answers: Seq<WaitOutcome>,
    to: Sequence,
    k: int,
    sequence: int,
) -> (j: int)
    requires
        0 <= first,
        batches_taken(barrier, first, uppers_of(answers)),
        moved_at(acts_of(ring_buffer, first, answers), to, k),
        first <= sequence <= to,
    ensures
        j < k,
        handled_at(acts_of(ring_buffer, first, answers), ring_buffer, sequence, j),
    decreases answers.len(),
{
    lemma_last_answer(barrier, ring_buffer, first, answers);
    let before = answers.drop_last();
    let next = sequence_after(first, uppers_of(before));
    let earlier = acts_of(ring_buffer, first, before);
    let all = acts_of(ring_buffer, first, answers);
    let asked = seq![
        Act::<E>::Asked { requested: next as Sequence, outcome: answers.last() },
    ];
    let outcome = outcome_acts(ring_buffer, next, answers.last());
    assert(all == earlier + asked + outcome);
    if k < earlier.len() {
        assert(all[k] == earlier[k]);
        let j = only_what_was_handled_is_announced(
            barrier,
            ring_buffer,
            first,
            before,
            to,
            k,
            sequence,
        );
        assert(all[j] == earlier[j]);
        j
    } else {
        assert(k != earlier.len());
        let m = k - earlier.len() - 1;
        assert(all[k] == outcome[m]);
        let upper = answers.last()->upper;
        let batch = batch_acts(ring_buffer, next, upper);
        if m < batch.len() {
            assert(outcome[m] == batch[m]);
            assert(batch[m] == handling(ring_buffer, next + m, upper));
        }
        assert(m == batch.len() && to == upper);
        if sequence < next {
            let j = lemma_all_handled(barrier, ring_buffer, first, before, sequence);
            assert(all[j] == earlier[j]);
            j
        } else {
            let j = earlier.len() + 1 + (sequence - next);
            assert(all[j] == outcome[sequence - next]);
            assert(outcome[sequence - next] == batch[sequence - next]);
            assert(next + (sequence - next) == sequence);
            assert(all[j] == handling(ring_buffer, sequence, upper));
            j
        }
    }
}

/// What is read of the cursor of a processor is where the cursor began or where the processor has
/// moved it to so far. That is what an atomic cell with one writer does.
pub open spec fn written_by<E>(cursor: &Cursor, acts: Seq<Act<E>>) -> bool {
    forall|shown: Sequence| #[trigger]
        cursor.shows(shown) ==> shown == INITIAL_SEQUENCE || exists|k: int|
            moved_at(acts, shown, k)
}

/// Where a cursor tells that the consumer is done with an event, the consumer has handled it.
pub proof fn what_is_announced_was_handled<E, B: Barrier>(
    cursor: &Cursor,
    barrier: &B,
    ring_buffer: &RingBuffer<E>,
    answers: Seq<WaitOutcome>,
    sequence: int,
)
    requires
        batches_taken(barrier, 0, uppers_of(answers)),
        written_by(cursor, acts_of(ring_buffer, 0, answers)),
        announced(cursor, sequence),
        0 <= sequence,
    ensures
        handled_and_announced(acts_of(ring_buffer, 0, answers), ring_buffer, sequence),
{
    let acts = acts_of(ring_buffer, 0, answers);
    let done = choose|done: Sequence| sequence <= done && #[trigger] cursor.shows(done);
    let k = choose|k: int| moved_at(acts, done, k);
    let j = only_what_was_handled_is_announced(
        barrier,
        ring_buffer,
        0,
        answers,
        done,
        k,
        sequence,
    );
    assert(handled_at(acts, ring_buffer, sequence, j) && moved_at(acts, done, k));
}

/// A stage behind a group gets an event only after every processor of the group has handled it.
/// `uppers` are the batches of the stage, and `answers` are those that the waiter of the processor
/// gave until the stage read its cursor.
pub proof fn a_stage_gets_what_its_group_has_handled<E, B: Barrier>(
    stage: MultiConsumerBarrier,
    uppers: Seq<Sequence>,
    sequence: int,
    consumer: int,
    barrier: &B,
    ring_buffer: &RingBuffer<E>,
    answers: Seq<WaitOutcome>,
)
    requires
        batches_taken(&stage, 0, uppers),
        0 <= sequence < sequence_after(0, uppers),
        0 <= consumer < stage.watches().len(),
        batches_taken(barrier, 0, uppers_of(answers)),
        written_by(&*stage.watches()[consumer], acts_of(ring_buffer, 0, answers)),
    ensures
        handled_and_announced(acts_of(ring_buffer, 0, answers), ring_buffer, sequence),
{
    a_stage_stays_behind_its_group(stage, 0, uppers, sequence, consumer);
    what_is_announced_was_handled(
        &*stage.watches()[consumer],
        barrier,
        ring_buffer,
        answers,
        sequence,
    );
}

/// A stage behind one processor gets an event only after the processor has handled it.
pub proof fn a_stage_gets_what_a_consumer_has_handled<E, B: Barrier>(
    stage: SingleConsumerBarrier,
    uppers: Seq<Sequence>,
    sequence: int,
    barrier: &B,
    ring_buffer: &RingBuffer<E>,
    answers: Seq<WaitOutcome>,
)
    requires
        batches_taken(&stage, 0, uppers),
        0 <= sequence < sequence_after(0, uppers),
        batches_taken(barrier, 0, uppers_of(answers)),
        written_by(&*stage.watches(), acts_of(ring_buffer, 0, answers)),
    ensures
        handled_and_announced(acts_of(ring_buffer, 0, answers), ring_buffer, sequence),
{
    a_stage_stays_behind_a_consumer(stage, 0, uppers, sequence);
    what_is_announced_was_handled(&*stage.watches(), barrier, ring_buffer, answers, sequence);
}

/// A stage behind a group and external gates gets an event only after every processor of the group
/// has handled it.
pub proof fn a_gated_stage_gets_what_its_group_has_handled<E, B: Barrier>(
    stage: MultiConsumerDependentsBarrier,
    uppers: Seq<Sequence>,
    sequence: int,
    consumer: int,
    barrier: &B,
    ring_buffer: &RingBuffer<E>,
    answers: Seq<WaitOutcome>,
)
    requires
        batches_taken(&stage, 0, uppers),
        0 <= sequence < sequence_after(0, uppers),
        0 <= consumer < stage.watches().len(),
        batches_taken(barrier, 0, uppers_of(answers)),
        written_by(&*stage.watches()[consumer], acts_of(ring_buffer, 0, answers)),
    ensures
        handled_and_announced(acts_of(ring_buffer, 0, answers), ring_buffer, sequence),
{
    a_stage_stays_behind_its_gates(stage, 0, uppers, sequence);
    what_is_announced_was_handled(
        &*stage.watches()[consumer],
        barrier,
        ring_buffer,
        answers,
        sequence,
    );
}

/// A processor that stopped and was run again did, all in all, what one run does whose waiter gives
/// the answers of both.
pub proof fn two_runs_do_what_one_does<E>(
    ring_buffer: &RingBuffer<E>,
    first: int,
    answers: Seq<WaitOutcome>,
    more: Seq<WaitOutcome>,
)
    ensures
        uppers_of(answers + more) == uppers_of(answers) + uppers_of(more),
        acts_of(ring_buffer, first, answers + more) == acts_of(ring_buffer, first, answers)
            + acts_of(ring_buffer, sequence_after(first, uppers_of(answers)), more),
    decreases more.len(),
{
    let all = answers + more;
    if more.len() == 0 {
        assert(all == answers);
        assert(uppers_of(answers) + uppers_of(more) == uppers_of(answers));
        assert(acts_of(ring_buffer, first, answers) + acts_of(
            ring_buffer,
            sequence_after(first, uppers_of(answers)),
            more,
        ) == acts_of(ring_buffer, first, answers));
    } else {
        let fewer = more.drop_last();
        two_runs_do_what_one_does(ring_buffer, first, answers, fewer);
        assert(all.drop_last() == answers + fewer);
        let next = sequence_after(first, uppers_of(answers));
        let uppers = uppers_of(answers) + uppers_of(fewer);
        assert(sequence_after(first, uppers) == sequence_after(next, uppers_of(fewer))) by {
            if uppers_of(fewer).len() > 0 {
                assert(uppers.last() == uppers_of(fewer).last());
            } else {
                assert(uppers == uppers_of(answers));
            }
        }
        assert(uppers_of(all) == uppers_of(answers) + uppers_of(more));
        assert(acts_of(ring_buffer, first, all) == acts_of(ring_buffer, first, answers) + acts_of(
            ring_buffer,
            next,
            more,
        ));
    }
}

/// What was stored in a cursor was stored by an act that moved it.
proof fn lemma_moved_by_an_act<E>(acts: Seq<Act<E>>, stored: Sequence) -> (k: int)
    requires
        moved_by(acts).contains(stored),
    ensures
        moved_at(acts, stored, k),
    decreases acts.len(),
{
    let before = acts.drop_last();
    if acts.last() == (Act::<E>::Moved { to: stored }) {
        acts.len() - 1
    } else {
        assert(moved_by(before).contains(stored)) by {
            let i = choose|i: int| 0 <= i < moved_by(acts).len() && moved_by(acts)[i] == stored;
            assert(moved_by(before)[i] == stored);
        }
        let k = lemma_moved_by_an_act(before, stored);
        assert(acts[k] == before[k]);
        k
    }
}

/// At no moment of a run does the cursor of a processor tell of an event that the processor has not
/// handled. `moment` is the number of acts that were done until then; what was stored in the cursor
/// until then are sequences of which every event was handled before that moment. Nothing else is
/// stored in the cursor, neither by a wait nor by a handler nor by a wake.
pub proof fn a_cursor_never_tells_of_what_was_not_handled<
    E,
    B: Barrier,
    W: Waiter,
    S: EventSink<E>,
    N: WakeupNotifier,
>(
    desk: &mut Desk<E, W, S, N>,
    barrier: &B,
    shutdown: &CachePadded<AtomicI64>,
    ring_buffer: &RingBuffer<E>,
    sequence: &mut Sequence,
    exit: ProcessorExit,
)
    requires
        call_ensures(
            run_processor_loop::<E, B, W, S, N>,
            (desk, barrier, shutdown, ring_buffer, sequence),
            exit,
        ),
        desk.acts() == Seq::<Act<E>>::empty(),
        desk.keeps_account(),
        *sequence >= 0,
    ensures
        final(desk).stored() == moved_by(final(desk).acts()),
        forall|moment: int, stored: Sequence, event: int|
            {
                &&& 0 <= moment <= final(desk).acts().len()
                &&& #[trigger] moved_by(final(desk).acts().take(moment)).contains(stored)
                &&& *old(sequence) <= event <= stored
            } ==> #[trigger] handled_before(final(desk).acts(), ring_buffer, event, moment),
{
    let first = *sequence as int;
    let answers = choose|answers: Seq<WaitOutcome>| #[trigger]
        ran(desk, final(desk), barrier, shutdown, ring_buffer, first, answers) && stops(
            answers,
            exit,
        );
    let acts = acts_of(ring_buffer, first, answers);
    let done = final(desk).acts();
    assert(done == acts);
    assert forall|moment: int, stored: Sequence, event: int|
        {
            &&& 0 <= moment <= done.len()
            &&& #[trigger] moved_by(done.take(moment)).contains(stored)
            &&& first <= event <= stored
        } implies #[trigger] handled_before(done, ring_buffer, event, moment) by {
        let k = lemma_moved_by_an_act(done.take(moment), stored);
        assert(moved_at(acts, stored, k));
        let j = only_what_was_handled_is_announced(
            barrier,
            ring_buffer,
            first,
            answers,
            stored,
            k,
            event,
        );
        assert(handled_at(done, ring_buffer, event, j));
    }
}

/// Neither a wait nor the handling of an event nor a wake stores anything in the cursor, whatever
/// the waiter reports and whatever the event is.
pub proof fn only_a_move_stores<E, W: Waiter, S: EventSink<E>, N: WakeupNotifier, B: Barrier>(
    waiting: &mut Desk<E, W, S, N>,
    requested: Sequence,
    barrier: &B,
    shutdown: &CachePadded<AtomicI64>,
    outcome: WaitOutcome,
    handling: &mut Desk<E, W, S, N>,
    event: &E,
    sequence: Sequence,
    end_of_batch: bool,
    waking: &mut Desk<E, W, S, N>,
    moving: &mut Desk<E, W, S, N>,
    to: Sequence,
)
    requires
        call_ensures(
            Desk::<E, W, S, N>::wait::<B>,
            (waiting, requested, barrier, shutdown),
            outcome,
        ),
        call_ensures(Desk::<E, W, S, N>::handle, (handling, event, sequence, end_of_batch), ()),
        call_ensures(Desk::<E, W, S, N>::wake, (waking,), ()),
        call_ensures(Desk::<E, W, S, N>::move_cursor, (moving, to), ()),
    ensures
        final(waiting).stored() == old(waiting).stored(),
        final(handling).stored() == old(handling).stored(),
        final(waking).stored() == old(waking).stored(),
        final(moving).stored() == old(moving).stored().push(to),
{
}

} // verus!
