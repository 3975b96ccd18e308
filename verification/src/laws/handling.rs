//! Laws of handling: how closures are called that handle events.

use crate::barrier::Barrier;
use crate::consumer::desk::Desk;
use crate::consumer::{
    goes_on_with, passed_at, processed, ran, run_processor_loop, sequence_after, uppers_of, ProcessorExit,
};
use crate::event_handler::{EventHandler, EventHandlerWithState, HandlerSink};
use crate::ringbuffer::RingBuffer;
use crate::wait_strategies::{WaitOutcome, Waiter, WakeupNotifier};
use crate::Sequence;
use crossbeam_utils::CachePadded;
use std::sync::atomic::AtomicI64;
use vstd::prelude::*;

verus! {

/// An event takes one call of a closure. The call is made by the reference to the closure that was
/// handed over. It uses the reference up, and no other reference was given leave to call.
pub proof fn an_event_takes_one_call<E, F: FnMut(&E, Sequence, bool) + Send>(
    handler: &mut F,
    event: &E,
    sequence: Sequence,
    end_of_batch: bool,
)
    requires
        call_ensures(
            <F as EventHandler<E>>::on_event,
            (handler, event, sequence, end_of_batch),
            (),
        ),
    ensures
        call_ensures(handler, (event, sequence, end_of_batch), ()),
        call_ensures(*old(handler), (event, sequence, end_of_batch), ()),
        *final(handler) == *old(handler),
{
}

/// An event takes one call of a closure with a state too. It is made on the state of the caller and
/// leaves there what it made of it.
pub proof fn an_event_takes_one_call_on_the_state<
    E,
    S,
    F: FnMut(&mut S, &E, Sequence, bool) + Send,
>(handler: &mut F, state: &mut S, event: &E, sequence: Sequence, end_of_batch: bool)
    requires
        call_ensures(
            <F as EventHandlerWithState<E, S>>::on_event,
            (handler, state, event, sequence, end_of_batch),
            (),
        ),
    ensures
        exists|handed: &mut S|
            {
                &&& *handed == *old(state)
                &&& *final(handed) == *final(state)
                &&& #[trigger] call_ensures(handler, (handed, event, sequence, end_of_batch), ())
            },
        *final(handler) == *old(handler),
{
}

/// The closure stays what it is while it takes events.
proof fn lemma_same_closure<E, F: FnMut(&E, Sequence, bool) + Send>(
    ring_buffer: &RingBuffer<E>,
    first: int,
    sinks: Seq<HandlerSink<F>>,
    uppers: Seq<Sequence>,
    k: int,
)
    requires
        0 <= k < sinks.len(),
        forall|i: int|
            0 <= i < sinks.len() - 1 ==> #[trigger] passed_at(ring_buffer, first, sinks, uppers, i),
    ensures
        sinks[k].event_handler == sinks[0].event_handler,
    decreases k,
{
    if k > 0 {
        lemma_same_closure(ring_buffer, first, sinks, uppers, k - 1);
        assert(passed_at(ring_buffer, first, sinks, uppers, k - 1));
    }
}

/// The closure was called with the event that has the sequence.
pub open spec fn called_with<E, F: FnMut(&E, Sequence, bool) + Send>(
    event_handler: F,
    ring_buffer: &RingBuffer<E>,
    sequence: int,
) -> bool {
    exists|end_of_batch: bool| #[trigger]
        call_ensures(
            event_handler,
            (&ring_buffer.event_at(sequence), sequence as Sequence, end_of_batch),
            (),
        )
}

/// A run of a processor calls its closure with every event from the first one up to the one that it
/// goes on with, and the closure is the same afterwards.
pub proof fn a_run_calls_its_closure_with_every_event<
    E,
    B: Barrier,
    W: Waiter,
    F: FnMut(&E, Sequence, bool) + Send,
    N: WakeupNotifier,
>(
    desk: &mut Desk<E, W, HandlerSink<F>, N>,
    barrier: &B,
    shutdown: &CachePadded<AtomicI64>,
    ring_buffer: &RingBuffer<E>,
    sequence: &mut Sequence,
    exit: ProcessorExit,
)
    requires
        call_ensures(
            run_processor_loop::<E, B, W, HandlerSink<F>, N>,
            (desk, barrier, shutdown, ring_buffer, sequence),
            exit,
        ),
    ensures
        final(desk).passes_to().event_handler == old(desk).passes_to().event_handler,
        forall|event: int|
            *old(sequence) <= event < *final(sequence) ==> #[trigger] called_with(
                old(desk).passes_to().event_handler,
                ring_buffer,
                event,
            ),
{
    let first = *sequence as int;
    let answers = choose|answers: Seq<WaitOutcome>| #[trigger]
        ran(desk, final(desk), barrier, shutdown, ring_buffer, first, answers) && *final(sequence)
            == goes_on_with(first, answers);
    let uppers = uppers_of(answers);
    let sinks = choose|sinks: Seq<HandlerSink<F>>|
        {
            &&& #[trigger] processed(barrier, ring_buffer, first, uppers, sinks)
            &&& sinks[0] == desk.passes_to()
            &&& sinks.last() == final(desk).passes_to()
        };
    lemma_same_closure(ring_buffer, first, sinks, uppers, sinks.len() - 1);
    assert forall|event: int| *sequence <= event < *final(sequence) implies #[trigger] called_with(
        desk.passes_to().event_handler,
        ring_buffer,
        event,
    ) by {
        let k = event - first;
        assert(sinks.len() == sequence_after(first, uppers) - first + 1);
        assert(passed_at(ring_buffer, first, sinks, uppers, k));
        lemma_same_closure(ring_buffer, first, sinks, uppers, k);
        let end_of_batch = uppers.contains(event as Sequence);
        assert(first + k == event);
        assert(call_ensures(
            desk.passes_to().event_handler,
            (&ring_buffer.event_at(event), event as Sequence, end_of_batch),
            (),
        ));
    }
}

} // verus!
