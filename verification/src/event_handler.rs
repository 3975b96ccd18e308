//! What consumers do with the events.

use crate::Sequence;
use vstd::prelude::*;

verus! {

/// Trait for processing events on consumer threads.
///
/// A handler is either a closure or a type of its own.
pub trait EventHandler<E>: Send {
    /// Whether the handler can be called with these arguments. A handler that takes every event may
    /// leave it out.
    open spec fn accepts(&self, event: &E, sequence: Sequence, end_of_batch: bool) -> bool {
        true
    }

    /// Whether the handler can be called by this reference to it, with these arguments. A handler
    /// that can be called by any may leave it out.
    open spec fn admits(
        handler: &mut Self,
        event: &E,
        sequence: Sequence,
        end_of_batch: bool,
    ) -> bool {
        handler.accepts(event, sequence, end_of_batch)
    }

    /// Whether a call with these arguments can turn the handler into `after`. A handler that
    /// promises nothing may leave it out.
    open spec fn handles(
        &self,
        event: &E,
        sequence: Sequence,
        end_of_batch: bool,
        after: &Self,
    ) -> bool {
        true
    }

    /// Whether a call by this reference, with these arguments, can have been made. A handler that
    /// promises nothing may leave it out.
    open spec fn was_called(
        handler: &mut Self,
        event: &E,
        sequence: Sequence,
        end_of_batch: bool,
    ) -> bool {
        true
    }

    /// Called for each published event. `end_of_batch` tells that no later event was available
    /// when the batch that holds this one was taken.
    fn on_event(&mut self, event: &E, sequence: Sequence, end_of_batch: bool)
        requires
            Self::admits(self, event, sequence, end_of_batch),
        ensures
            old(self).handles(event, sequence, end_of_batch, final(self)),
            Self::was_called(self, event, sequence, end_of_batch),
    ;
}

/// Calls what can be called once, which uses it up.
fn call<E, G: FnOnce(&E, Sequence, bool)>(
    callee: G,
    event: &E,
    sequence: Sequence,
    end_of_batch: bool,
)
    requires
        call_requires(callee, (event, sequence, end_of_batch)),
    ensures
        call_ensures(callee, (event, sequence, end_of_batch), ()),
{
    callee(event, sequence, end_of_batch)
}

impl<E, F> EventHandler<E> for F where F: FnMut(&E, Sequence, bool) + Send {
    open spec fn accepts(&self, event: &E, sequence: Sequence, end_of_batch: bool) -> bool {
        call_requires(*self, (event, sequence, end_of_batch))
    }

    /// The closure can be called by the reference. A call uses the reference up, and nothing is said
    /// of a call by another one.
    open spec fn admits(
        handler: &mut Self,
        event: &E,
        sequence: Sequence,
        end_of_batch: bool,
    ) -> bool {
        call_requires(handler, (event, sequence, end_of_batch))
    }

    open spec fn handles(
        &self,
        event: &E,
        sequence: Sequence,
        end_of_batch: bool,
        after: &Self,
    ) -> bool {
        &&& call_ensures(*self, (event, sequence, end_of_batch), ())
        &&& *after == *self
    }

    /// The closure was called by the reference.
    open spec fn was_called(
        handler: &mut Self,
        event: &E,
        sequence: Sequence,
        end_of_batch: bool,
    ) -> bool {
        call_ensures(handler, (event, sequence, end_of_batch), ())
    }

    /// Calls the closure, once: what is required allows for one call, and what is ensured takes one.
    fn on_event(&mut self, event: &E, sequence: Sequence, end_of_batch: bool) {
        call(self, event, sequence, end_of_batch)
    }
}

/// Trait for processing events with a separate mutable state value.
///
/// The handler is sent to the consumer thread. The state is made in that thread and never leaves
/// it, so it need not be `Send`.
pub trait EventHandlerWithState<E, S>: Send {
    /// Whether the handler can be called with these arguments. A handler that takes every event may
    /// leave it out.
    open spec fn accepts(
        &self,
        state: &S,
        event: &E,
        sequence: Sequence,
        end_of_batch: bool,
    ) -> bool {
        true
    }

    /// Whether the handler can be called by this reference to it, with this reference to the state
    /// and these arguments. A handler that can be called by any may leave it out.
    open spec fn admits(
        handler: &mut Self,
        state: &mut S,
        event: &E,
        sequence: Sequence,
        end_of_batch: bool,
    ) -> bool {
        handler.accepts(&*state, event, sequence, end_of_batch)
    }

    /// Whether a call with these arguments can turn the handler into `after` and the state into
    /// `state_after`. A handler that promises nothing may leave it out.
    open spec fn handles(
        &self,
        state: &S,
        event: &E,
        sequence: Sequence,
        end_of_batch: bool,
        after: &Self,
        state_after: &S,
    ) -> bool {
        true
    }

    /// Whether a call by this reference, with this reference to the state and these arguments, can
    /// have been made. A handler that promises nothing may leave it out.
    open spec fn was_called(
        handler: &mut Self,
        state: &mut S,
        event: &E,
        sequence: Sequence,
        end_of_batch: bool,
    ) -> bool {
        true
    }

    /// Called for each published event with mutable access to the state.
    fn on_event(&mut self, state: &mut S, event: &E, sequence: Sequence, end_of_batch: bool)
        requires
            Self::admits(self, state, event, sequence, end_of_batch),
        ensures
            old(self).handles(
                old(state),
                event,
                sequence,
                end_of_batch,
                final(self),
                final(state),
            ),
            Self::was_called(self, state, event, sequence, end_of_batch),
    ;
}

/// Hands something to what can be called once, and calls it. Both are used up.
fn call_on<E, T, G: FnOnce(T, &E, Sequence, bool)>(
    handed: T,
    callee: G,
    event: &E,
    sequence: Sequence,
    end_of_batch: bool,
)
    requires
        call_requires(callee, (handed, event, sequence, end_of_batch)),
    ensures
        call_ensures(callee, (handed, event, sequence, end_of_batch), ()),
{
    callee(handed, event, sequence, end_of_batch)
}

impl<E, S, F> EventHandlerWithState<E, S> for F where F: FnMut(&mut S, &E, Sequence, bool) + Send {
    open spec fn accepts(
        &self,
        state: &S,
        event: &E,
        sequence: Sequence,
        end_of_batch: bool,
    ) -> bool {
        forall|handed: &mut S|
            *handed == *state ==> #[trigger] call_requires(
                *self,
                (handed, event, sequence, end_of_batch),
            )
    }

    /// The closure can be called by the reference, on this reference to the state. A call uses both
    /// up, and nothing is said of a call by others.
    open spec fn admits(
        handler: &mut Self,
        state: &mut S,
        event: &E,
        sequence: Sequence,
        end_of_batch: bool,
    ) -> bool {
        call_requires(handler, (state, event, sequence, end_of_batch))
    }

    open spec fn handles(
        &self,
        state: &S,
        event: &E,
        sequence: Sequence,
        end_of_batch: bool,
        after: &Self,
        state_after: &S,
    ) -> bool {
        &&& exists|handed: &mut S|
            *handed == *state && #[trigger] call_ensures(
                *self,
                (handed, event, sequence, end_of_batch),
                (),
            )
        &&& *after == *self
    }

    /// The closure was called by the reference, on the state.
    open spec fn was_called(
        handler: &mut Self,
        state: &mut S,
        event: &E,
        sequence: Sequence,
        end_of_batch: bool,
    ) -> bool {
        call_ensures(handler, (state, event, sequence, end_of_batch), ())
    }

    /// Calls the closure on the state of the caller, once: what is required allows for one call, and
    /// what is ensured takes one.
    fn on_event(&mut self, state: &mut S, event: &E, sequence: Sequence, end_of_batch: bool) {
        call_on(state, self, event, sequence, end_of_batch)
    }
}

/// A closure can be passed what it can be called with.
pub proof fn a_closure_accepts_what_it_can_be_called_with<
    E,
    F: FnMut(&E, Sequence, bool) + Send,
>(event_handler: F, event: &E, sequence: Sequence, end_of_batch: bool)
    ensures
        EventHandler::<E>::accepts(&event_handler, event, sequence, end_of_batch) == call_requires(
            event_handler,
            (event, sequence, end_of_batch),
        ),
{
}

/// A closure can be passed a state and what it can be called with on that state.
pub proof fn a_stateful_closure_accepts_what_it_can_be_called_with<
    E,
    S,
    F: FnMut(&mut S, &E, Sequence, bool) + Send,
>(event_handler: F, state: &S, event: &E, sequence: Sequence, end_of_batch: bool)
    ensures
        EventHandlerWithState::<E, S>::accepts(
            &event_handler,
            state,
            event,
            sequence,
            end_of_batch,
        ) == forall|handed: &mut S|
            *handed == *state ==> #[trigger] call_requires(
                event_handler,
                (handed, event, sequence, end_of_batch),
            ),
{
}

/// A closure can be passed what it can be called with, by any reference to it.
pub proof fn a_closure_admits_what_it_can_be_called_with<E, F: FnMut(&E, Sequence, bool) + Send>(
    event_handler: F,
    event: &E,
    sequence: Sequence,
    end_of_batch: bool,
)
    requires
        call_requires(event_handler, (event, sequence, end_of_batch)),
    ensures
        forall|handler: &mut F|
            *handler == event_handler ==> #[trigger] EventHandler::<E>::admits(
                handler,
                event,
                sequence,
                end_of_batch,
            ),
{
}

/// A closure that was passed an event was called with it, and is the same afterwards.
pub proof fn a_closure_handles_by_a_call<E, F: FnMut(&E, Sequence, bool) + Send>(
    event_handler: F,
    event: &E,
    sequence: Sequence,
    end_of_batch: bool,
    after: F,
)
    ensures
        EventHandler::<E>::handles(&event_handler, event, sequence, end_of_batch, &after) == (
        call_ensures(event_handler, (event, sequence, end_of_batch), ()) && after
            == event_handler),
{
}

/// A closure can be passed a state and what it can be called with on it, by any references to the
/// two.
pub proof fn a_stateful_closure_admits_what_it_can_be_called_with<
    E,
    S,
    F: FnMut(&mut S, &E, Sequence, bool) + Send,
>(event_handler: F, state: S, event: &E, sequence: Sequence, end_of_batch: bool)
    requires
        forall|handed: &mut S|
            *handed == state ==> #[trigger] call_requires(
                event_handler,
                (handed, event, sequence, end_of_batch),
            ),
    ensures
        forall|handler: &mut F, handed: &mut S|
            *handler == event_handler && *handed == state ==> #[trigger] EventHandlerWithState::<
                E,
                S,
            >::admits(handler, handed, event, sequence, end_of_batch),
{
}

/// A closure that was passed an event with a state was called with it on that state, and leaves
/// there what it made of it.
pub proof fn a_stateful_closure_handles_by_a_call<
    E,
    S,
    F: FnMut(&mut S, &E, Sequence, bool) + Send,
>(handler: &mut F, state: &mut S, event: &E, sequence: Sequence, end_of_batch: bool)
    requires
        EventHandlerWithState::<E, S>::was_called(handler, state, event, sequence, end_of_batch),
    ensures
        call_ensures(*old(handler), (state, event, sequence, end_of_batch), ()),
        *final(handler) == *old(handler),
{
}

/// What a processor passes its events to. Unlike a handler it stays in the thread that made it.
pub trait EventSink<E> {
    /// Whether the sink can be passed these arguments.
    spec fn accepts(&self, event: &E, sequence: Sequence, end_of_batch: bool) -> bool;

    /// Whether passing these arguments can turn the sink into `after`.
    spec fn takes(&self, event: &E, sequence: Sequence, end_of_batch: bool, after: &Self) -> bool;

    /// The numbers of the [effects](crate::effects) that passing an event can have. A sink that tells
    /// nothing of its effects may leave it out.
    open spec fn effects(&self) -> Set<int> {
        Set::full()
    }

    /// Passes one event.
    fn pass(&mut self, event: &E, sequence: Sequence, end_of_batch: bool)
        requires
            old(self).accepts(event, sequence, end_of_batch),
        ensures
            old(self).takes(event, sequence, end_of_batch, final(self)),
        opens_invariants old(self).effects()
    ;
}

/// Passes the events to a handler.
pub struct HandlerSink<EP> {
    /// The handler.
    pub event_handler: EP,
}

impl<E, EP: EventHandler<E>> EventSink<E> for HandlerSink<EP> {
    open spec fn accepts(&self, event: &E, sequence: Sequence, end_of_batch: bool) -> bool {
        forall|handler: &mut EP|
            *handler == self.event_handler ==> #[trigger] EP::admits(
                handler,
                event,
                sequence,
                end_of_batch,
            )
    }

    open spec fn takes(
        &self,
        event: &E,
        sequence: Sequence,
        end_of_batch: bool,
        after: &Self,
    ) -> bool {
        self.event_handler.handles(event, sequence, end_of_batch, &after.event_handler)
    }

    fn pass(&mut self, event: &E, sequence: Sequence, end_of_batch: bool) {
        self.event_handler.on_event(event, sequence, end_of_batch)
    }
}

/// Passes the events to a handler together with the state that it works on.
pub struct StatefulSink<EP, S> {
    /// The handler.
    pub event_handler: EP,
    /// The state.
    pub state: S,
}

impl<E, S, EP: EventHandlerWithState<E, S>> EventSink<E> for StatefulSink<EP, S> {
    open spec fn accepts(&self, event: &E, sequence: Sequence, end_of_batch: bool) -> bool {
        forall|handler: &mut EP, state: &mut S|
            *handler == self.event_handler && *state == self.state ==> #[trigger] EP::admits(
                handler,
                state,
                event,
                sequence,
                end_of_batch,
            )
    }

    open spec fn takes(
        &self,
        event: &E,
        sequence: Sequence,
        end_of_batch: bool,
        after: &Self,
    ) -> bool {
        self.event_handler.handles(
            &self.state,
            event,
            sequence,
            end_of_batch,
            &after.event_handler,
            &after.state,
        )
    }

    fn pass(&mut self, event: &E, sequence: Sequence, end_of_batch: bool) {
        self.event_handler.on_event(&mut self.state, event, sequence, end_of_batch)
    }
}

} // verus!
