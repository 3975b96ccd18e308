//! What a processor works with, and the record of what it did with it.
//!
//! What a [`Desk`] says was done by it, in this order: its fields are private, nothing but the
//! methods that do something extends its record, and nothing else can get at the waiter, the sink,
//! the cursor and the notifier of a processor.

use crate::atomics::padded_atomic;
use crate::barrier::Barrier;
use crate::cursor::{Cursor, Mover};
use crate::effects::{number, Effect};
use crate::event_handler::EventSink;
use crate::wait_strategies::record::answers_of;
use crate::wait_strategies::{outcome_observed, woken, WaitOutcome, Waiter, WakeupNotifier};
use crate::Sequence;
use crossbeam_utils::CachePadded;
use std::sync::atomic::AtomicI64;
use std::sync::Arc;
use vstd::prelude::*;

verus! {

/// One act of a processor.
pub enum Act<E> {
    /// It has waited.
    Asked {
        /// The sequence that it waited for.
        requested: Sequence,
        /// What the waiter reported.
        outcome: WaitOutcome,
    },
    /// It has passed an event to the sink.
    Handled {
        /// The event.
        event: E,
        /// Its sequence.
        sequence: Sequence,
        /// Whether the sink was told that it is the last of its batch.
        end_of_batch: bool,
    },
    /// It has moved the cursor.
    Moved {
        /// Where to.
        to: Sequence,
    },
    /// It has woken whoever waits for the cursor.
    Woken,
}

/// Where the acts have moved the cursor to, in order.
pub open spec fn moved_by<E>(acts: Seq<Act<E>>) -> Seq<Sequence>
    decreases acts.len(),
{
    if acts.len() == 0 {
        Seq::empty()
    } else {
        match acts.last() {
            Act::Moved { to } => moved_by(acts.drop_last()).push(to),
            _ => moved_by(acts.drop_last()),
        }
    }
}

/// One more act.
proof fn lemma_moved_by<E>(acts: Seq<Act<E>>, act: Act<E>)
    ensures
        moved_by(acts + seq![act]) == match act {
            Act::Moved { to } => moved_by(acts).push(to),
            _ => moved_by(acts),
        },
{
    assert((acts + seq![act]).drop_last() == acts);
}

/// The waiter, the sink, the cursor and the notifier of a processor.
pub struct Desk<E, W, S, N> {
    waiter: W,
    sink: S,
    mover: Mover,
    notifier: N,
    acts: Ghost<Seq<Act<E>>>,
}

impl<E, W, S, N> Desk<E, W, S, N> {
    /// What was done, in order.
    pub closed spec fn acts(&self) -> Seq<Act<E>> {
        self.acts@
    }

    /// What the processor waits with.
    pub closed spec fn waits_with(&self) -> W {
        self.waiter
    }

    /// What the processor passes the events to.
    pub closed spec fn passes_to(&self) -> S {
        self.sink
    }

    /// The cursor that the processor moves.
    pub closed spec fn moves(&self) -> Cursor {
        self.mover.moves()
    }

    /// What was stored in the cursor, in order.
    pub closed spec fn stored(&self) -> Seq<Sequence> {
        self.mover.moved()
    }

    /// The cursor was written to by the acts that moved it, and by nothing else.
    pub open spec fn keeps_account(&self) -> bool {
        self.stored() == moved_by(self.acts())
    }

    /// Whom the processor wakes.
    pub closed spec fn wakes(&self) -> N {
        self.notifier
    }

    /// The acts were done in addition, and nothing was stored in the cursor beside them. The cursor
    /// and the notifier are the same.
    pub open spec fn did(&self, before: &Self, acts: Seq<Act<E>>) -> bool {
        &&& self.acts() == before.acts() + acts
        &&& self.moves() == before.moves()
        &&& self.wakes() == before.wakes()
        &&& before.keeps_account() ==> self.keeps_account()
    }

    /// A desk at which nothing was done yet.
    pub fn new(waiter: W, sink: S, consumer_cursor: Arc<Cursor>, notifier: N) -> (desk: Self)
        ensures
            desk.acts() == Seq::<Act<E>>::empty(),
            desk.waits_with() == waiter,
            desk.passes_to() == sink,
            desk.moves() == *consumer_cursor,
            desk.wakes() == notifier,
            desk.keeps_account(),
    {
        Desk {
            waiter,
            sink,
            mover: Mover::new(&consumer_cursor),
            notifier,
            acts: Ghost(Seq::empty()),
        }
    }

    /// What the processor passes the events to.
    pub fn sink(&self) -> (sink: &S)
        ensures
            *sink == self.passes_to(),
    {
        &self.sink
    }

    /// Moves the cursor.
    pub fn move_cursor(&mut self, to: Sequence)
        ensures
            final(self).did(old(self), seq![Act::Moved { to }]),
            final(self).waits_with() == old(self).waits_with(),
            final(self).passes_to() == old(self).passes_to(),
            final(self).stored() == old(self).stored().push(to),
            old(self).moves().moved_to(to),
        opens_invariants [
            number(
                Effect::Store { atomic: padded_atomic(old(self).moves().cell()), value: to },
            ),
        ]
    {
        proof {
            lemma_moved_by(self.acts@, Act::Moved { to });
        }
        self.mover.move_to(to);
        self.acts = Ghost(self.acts@ + seq![Act::Moved { to }]);
    }
}

impl<E, W: Waiter, S, N> Desk<E, W, S, N> {
    /// Waits for the sequence.
    pub fn wait<B: Barrier>(
        &mut self,
        requested: Sequence,
        barrier: &B,
        shutdown: &CachePadded<AtomicI64>,
    ) -> (outcome: WaitOutcome)
        ensures
            final(self).did(old(self), seq![Act::Asked { requested, outcome }]),
            final(self).stored() == old(self).stored(),
            final(self).passes_to() == old(self).passes_to(),
            outcome_observed(requested, barrier, shutdown, outcome),
            old(self).waits_with().reports(
                requested,
                answers_of(barrier),
                shutdown,
                outcome,
                &final(self).waits_with(),
            ),
        opens_invariants old(self).waits_with().effects()
    {
        let outcome = self.waiter.wait_for(requested, barrier, shutdown);
        proof {
            lemma_moved_by(self.acts@, Act::Asked { requested, outcome });
        }
        self.acts = Ghost(self.acts@ + seq![Act::Asked { requested, outcome }]);
        outcome
    }
}

impl<E, W, S: EventSink<E>, N> Desk<E, W, S, N> {
    /// Passes the event to the sink.
    pub fn handle(&mut self, event: &E, sequence: Sequence, end_of_batch: bool)
        requires
            old(self).passes_to().accepts(event, sequence, end_of_batch),
        ensures
            final(self).did(
                old(self),
                seq![Act::Handled { event: *event, sequence, end_of_batch }],
            ),
            final(self).stored() == old(self).stored(),
            final(self).waits_with() == old(self).waits_with(),
            old(self).passes_to().takes(
                event,
                sequence,
                end_of_batch,
                &final(self).passes_to(),
            ),
        opens_invariants old(self).passes_to().effects()
    {
        proof {
            lemma_moved_by(self.acts@, Act::Handled { event: *event, sequence, end_of_batch });
        }
        self.sink.pass(event, sequence, end_of_batch);
        self.acts = Ghost(
            self.acts@ + seq![Act::Handled { event: *event, sequence, end_of_batch }],
        );
    }
}

impl<E, W, S, N: WakeupNotifier> Desk<E, W, S, N> {
    /// Wakes whoever waits for the cursor.
    pub fn wake(&mut self)
        ensures
            final(self).did(old(self), seq![Act::Woken]),
            final(self).stored() == old(self).stored(),
            final(self).waits_with() == old(self).waits_with(),
            final(self).passes_to() == old(self).passes_to(),
            woken(&old(self).wakes()),
        opens_invariants old(self).wakes().effects()
    {
        proof {
            lemma_moved_by(self.acts@, Act::Woken);
        }
        self.notifier.wake();
        self.acts = Ghost(self.acts@ + seq![Act::Woken]);
    }
}

} // verus!
