//! Building a disruptor with multiple producers in a type safe way.
//!
//! The first type parameter of [`MPBuilder`] tells how many consumers its current stage has:
//! none, one, or several. A stage can be completed, or the whole disruptor built, only once the
//! stage has a consumer.

use crate::affinity::{cpu_core, listed, unlisted};
use crate::atomics::cell_made;
use crate::barrier::Barrier;
use crate::builder::{Shared, Stage, MC, NC, SC};
use crate::consumer::event_poller::EventPoller;
use crate::consumer::processor::{
    prepare_processor, prepare_processor_with_state, Processor, StatefulProcessor,
    Station,
};
use crate::consumer::{
    MultiConsumerBarrier, MultiConsumerDependentsBarrier, SingleConsumerBarrier,
};
use crate::cursor::Cursor;
use crate::event_handler::{EventHandler, EventHandlerWithState};
use crate::ringbuffer::RingBuffer;
use crate::sequence::{DependentSequence, GatedSequence, INITIAL_SEQUENCE};
use crate::wait_strategies::WaitStrategy;
use crossbeam_utils::CachePadded;
use std::marker::PhantomData;
use std::sync::atomic::AtomicI64;
use std::sync::Arc;
use vstd::arithmetic::power2::is_pow2;
use vstd::prelude::*;

verus! {

/// `std::array::from_fn`: an array whose elements are what the function gives for their indices.
pub assume_specification<T, const N: usize, F: FnMut(usize) -> T>[ std::array::from_fn::<T, N, F> ](
    f: F,
) -> (array: [T; N])
    requires
        forall|i: usize| i < N ==> #[trigger] f.requires((i,)),
    ensures
        forall|i: usize| i < N ==> f.ensures((i,), #[trigger] array@[i as int]),
;

/// First step in building a disruptor with multiple producers.
///
/// `State` tells how many consumers the current stage has, `B` is the barrier that they wait
/// behind, and `P` is the barrier through which the producers publish.
pub struct MPBuilder<State: Stage, E, W: WaitStrategy, B, P> {
    state: PhantomData<State>,
    shared: Shared<E, W>,
    producer_barrier: Arc<P>,
    dependent_barrier: Arc<B>,
}

/// What the producers of a disruptor are made of.
pub struct MultiProducerParts<E, C, W: WaitStrategy, P> {
    /// The marker in which the last producer to go leaves the sequence after the last event.
    pub shutdown_at_sequence: Arc<CachePadded<AtomicI64>>,
    /// The ring buffer that the producers write to.
    pub ring_buffer: Arc<RingBuffer<E>>,
    /// The barrier through which the producers publish.
    pub producer_barrier: Arc<P>,
    /// The barrier of the last consumers, which the producers must not overtake.
    pub consumer_barrier: C,
    /// Whom the producers wake when they have published.
    pub notifier: W::Notifier,
}

/// Makes a closed gate with the number. It has a cell of its own and wakes whom a clone of the
/// notifier wakes.
fn new_gate<N: Clone>(number: usize, notifier: &N) -> (gate: GatedSequence<N>)
    ensures
        cell_made(gate.cell(), INITIAL_SEQUENCE),
        cloned(*notifier, gate.wakes()),
        gate.number() == Some(number as nat),
{
    GatedSequence::fresh(number, notifier.clone())
}

impl<S: Stage, E, W: WaitStrategy, B, P> MPBuilder<S, E, W, B, P> {
    #[verifier::type_invariant]
    spec fn stage_fits(self) -> bool {
        S::admits(self.shared.current_consumer_cursors@.len())
    }

    /// What all stages share.
    pub closed spec fn common(&self) -> Shared<E, W> {
        self.shared
    }

    /// The cursors of the consumers of the current stage.
    pub open spec fn cursors(&self) -> Seq<Arc<Cursor>> {
        self.common().current_consumer_cursors@
    }

    /// The barrier that the consumers of the current stage wait behind.
    pub closed spec fn behind(&self) -> Arc<B> {
        self.dependent_barrier
    }

    /// The barrier through which the producers publish.
    pub closed spec fn publishes_by(&self) -> Arc<P> {
        self.producer_barrier
    }

    /// The builder with a consumer more in its stage, which reads through the cursor.
    pub open spec fn gains<T: Stage>(
        &self,
        cursor: Arc<Cursor>,
        after: &MPBuilder<T, E, W, B, P>,
    ) -> bool {
        &&& after.common().same_base(&self.common())
        &&& after.cursors() == self.cursors().push(cursor)
        &&& after.behind() == self.behind()
        &&& after.publishes_by() == self.publishes_by()
    }

    /// The builder with the next stage begun: it has no consumer yet, and its consumers will wait
    /// behind the barrier that `after` tells of.
    pub open spec fn goes_on<C>(&self, after: &MPBuilder<NC, E, W, C, P>) -> bool {
        &&& after.common().same_base(&self.common())
        &&& after.common().thread_name == self.common().thread_name
        &&& after.common().affinity == self.common().affinity
        &&& after.cursors() == Seq::<Arc<Cursor>>::empty()
        &&& after.publishes_by() == self.publishes_by()
    }

    /// The producers of the disruptor, as far as they do not depend on the last barrier.
    pub open spec fn yields<C>(&self, parts: &MultiProducerParts<E, C, W, P>) -> bool {
        &&& parts.shutdown_at_sequence == self.common().shutdown_at_sequence
        &&& parts.ring_buffer == self.common().ring_buffer
        &&& parts.producer_barrier == self.publishes_by()
        &&& cloned(self.common().notifier, parts.notifier)
    }

    /// Puts a builder together from its parts.
    fn assemble(shared: Shared<E, W>, producer_barrier: Arc<P>, dependent_barrier: Arc<B>) -> (builder:
        Self)
        requires
            S::admits(shared.current_consumer_cursors@.len()),
        ensures
            builder.common() == shared,
            builder.publishes_by() == producer_barrier,
            builder.behind() == dependent_barrier,
    {
        MPBuilder { state: PhantomData, shared, producer_barrier, dependent_barrier }
    }

    /// What all stages share.
    pub fn shared(&self) -> (shared: &Shared<E, W>)
        ensures
            *shared == self.common(),
    {
        &self.shared
    }

    /// The barrier that the consumers of the current stage wait behind.
    pub fn dependent_barrier(&self) -> (barrier: Arc<B>)
        ensures
            barrier == self.behind(),
    {
        Arc::clone(&self.dependent_barrier)
    }

    /// Create new gated sequences tied to this builder's notifier.
    ///
    /// Use the returned gates to advance external dependencies. They automatically wake blocked
    /// downstream consumers when advanced. They are independent of each other.
    pub fn new_gates<const N: usize>(self) -> (result: (Self, [GatedSequence<W::Notifier>; N]))
        ensures
            result.0 == self,
            forall|i: int|
                0 <= i < N ==> {
                    &&& cell_made((#[trigger] result.1@[i]).cell(), INITIAL_SEQUENCE)
                    &&& cloned(self.common().notifier, result.1@[i].wakes())
                    &&& result.1@[i].number() == Some(i as nat)
                },
    {
        let notifier = &self.shared.notifier;
        let make = |i: usize| -> (gate: GatedSequence<W::Notifier>)
            ensures
                cell_made(gate.cell(), INITIAL_SEQUENCE) && cloned(*notifier, gate.wakes())
                    && gate.number() == Some(i as nat),
            { new_gate(i, notifier) };
        let gates: [GatedSequence<W::Notifier>; N] = std::array::from_fn(make);
        assert forall|i: int| 0 <= i < N implies {
            &&& cell_made((#[trigger] gates@[i]).cell(), INITIAL_SEQUENCE)
            &&& cloned(self.shared.notifier, gates@[i].wakes())
            &&& gates@[i].number() == Some(i as nat)
        } by {
            assert(gates@[(i as usize) as int] == gates@[i]);
        }
        (self, gates)
    }

    /// Gives the thread of the next processor a name.
    pub fn thread_name(self, name: String) -> (builder: Self)
        ensures
            builder.common().same_base(&self.common()),
            builder.cursors() == self.cursors(),
            builder.common().thread_name == Some(name),
            builder.common().affinity == self.common().affinity,
            builder.behind() == self.behind(),
            builder.publishes_by() == self.publishes_by(),
    {
        proof {
            use_type_invariant(&self);
        }
        let mut shared = self.shared;
        shared.thread_name = Some(name);
        Self::assemble(shared, self.producer_barrier, self.dependent_barrier)
    }

    /// Pins the thread of the next processor to the core with the number. Where there is no such
    /// core, the builder is given back as it was.
    pub fn pin_at_core(self, id: usize) -> (result: Result<Self, Self>)
        ensures
            match result {
                Ok(builder) => {
                    &&& listed(id)
                    &&& builder.common().same_base(&self.common())
                    &&& builder.cursors() == self.cursors()
                    &&& builder.common().thread_name == self.common().thread_name
                    &&& builder.common().affinity matches Some(core) && core.number() == id
                    &&& builder.behind() == self.behind()
                    &&& builder.publishes_by() == self.publishes_by()
                },
                Err(builder) => unlisted(id) && builder == self,
            },
    {
        proof {
            use_type_invariant(&self);
        }
        match cpu_core(id) {
            None => Err(self),
            Some(core) => {
                let mut shared = self.shared;
                shared.affinity = Some(core);
                Ok(Self::assemble(shared, self.producer_barrier, self.dependent_barrier))
            },
        }
    }

    /// Makes a poller behind the barrier of the current stage and adds its cursor to the stage.
    fn get_event_poller<T: Stage>(self) -> (result: (EventPoller<E, B>, MPBuilder<T, E, W, B, P>)) where
        B: Barrier,

        requires
            T::admits(self.cursors().len() + 1),
        ensures
            self.polls_by(&result.0),
            exists|cursor: Arc<Cursor>|
                *cursor == result.0.reads_into() && #[trigger] self.gains(cursor, &result.1),
            result.1.common().thread_name == self.common().thread_name,
            result.1.common().affinity == self.common().affinity,
    {
        let mut shared = self.shared;
        let cursor = Arc::new(Cursor::new(INITIAL_SEQUENCE));
        shared.add_cursor(Arc::clone(&cursor));
        let event_poller = EventPoller::new(
            Arc::clone(&shared.ring_buffer),
            Arc::clone(&self.dependent_barrier),
            Arc::clone(&shared.shutdown_at_sequence),
            Arc::clone(&cursor),
        );
        let builder = MPBuilder::<T, E, W, B, P>::assemble(
            shared,
            self.producer_barrier,
            self.dependent_barrier,
        );
        assert(self.gains(cursor, &builder));
        (event_poller, builder)
    }

    /// The poller reads the ring buffer of the disruptor behind the barrier of the current stage,
    /// from the first event on.
    pub open spec fn polls_by(&self, event_poller: &EventPoller<E, B>) -> bool {
        &&& event_poller.ring() == *self.common().ring_buffer
        &&& event_poller.behind() == *self.behind()
        &&& event_poller.shutdown_cell() == *self.common().shutdown_at_sequence
        &&& cell_made(event_poller.reads_into().cell(), INITIAL_SEQUENCE)
    }

    /// Makes a processor behind the barrier of the current stage and adds its cursor to the stage.
    fn add_event_handler<EH, T: Stage>(self, event_handler: EH) -> (result: (
        Processor<E, EH, W, B>,
        MPBuilder<T, E, W, B, P>,
    ))
        requires
            T::admits(self.cursors().len() + 1),
        ensures
            self.processes_by(&result.0.station),
            result.0.event_handler == event_handler,
            self.gains(result.0.station.consumer_cursor, &result.1),
            result.1.common().thread_name is None,
            result.1.common().affinity is None,
    {
        let mut shared = self.shared;
        let barrier = Arc::clone(&self.dependent_barrier);
        let notifier = shared.notifier.clone();
        let (cursor, processor) = prepare_processor(event_handler, &mut shared, barrier, notifier);
        shared.add_cursor(cursor);
        let builder = MPBuilder::<T, E, W, B, P>::assemble(
            shared,
            self.producer_barrier,
            self.dependent_barrier,
        );
        (processor, builder)
    }

    /// The processor works behind the barrier of the current stage and wakes whom a clone of the
    /// notifier wakes.
    pub open spec fn processes_by(&self, station: &Station<E, W, B>) -> bool {
        &&& station.fits(&self.common(), &*self.behind(), &station.notifier)
        &&& cloned(self.common().notifier, station.notifier)
    }

    /// Makes a processor with a state behind the barrier of the current stage and adds its cursor
    /// to the stage.
    fn add_event_handler_with_state<EH, IS, T: Stage>(
        self,
        event_handler: EH,
        initialize_state: IS,
    ) -> (result: (StatefulProcessor<E, EH, W, B, IS>, MPBuilder<T, E, W, B, P>))
        requires
            T::admits(self.cursors().len() + 1),
        ensures
            self.processes_by(&result.0.station),
            result.0.event_handler == event_handler,
            result.0.initialize_state == initialize_state,
            self.gains(result.0.station.consumer_cursor, &result.1),
            result.1.common().thread_name is None,
            result.1.common().affinity is None,
    {
        let mut shared = self.shared;
        let barrier = Arc::clone(&self.dependent_barrier);
        let notifier = shared.notifier.clone();
        let (cursor, processor) = prepare_processor_with_state(
            event_handler,
            &mut shared,
            barrier,
            initialize_state,
            notifier,
        );
        shared.add_cursor(cursor);
        let builder = MPBuilder::<T, E, W, B, P>::assemble(
            shared,
            self.producer_barrier,
            self.dependent_barrier,
        );
        (processor, builder)
    }
}

impl<E, W: WaitStrategy, B, P> MPBuilder<NC, E, W, B, P> {
    /// Begins a disruptor with a ring buffer of `size` slots, each filled from the factory. The
    /// consumers of the first stage wait behind `dependent_barrier`.
    pub fn new<F>(
        size: usize,
        event_factory: F,
        wait_strategy: W,
        producer_barrier: Arc<P>,
        dependent_barrier: Arc<B>,
    ) -> (builder: Self) where F: FnMut() -> E
        requires
            is_pow2(size as int),
            size <= i64::MAX,
            event_factory.requires(()),
        ensures
            builder.common().begun(size, event_factory, wait_strategy),
            builder.behind() == dependent_barrier,
            builder.publishes_by() == producer_barrier,
    {
        let shared = Shared::new(size, event_factory, wait_strategy);
        Self::assemble(shared, producer_barrier, dependent_barrier)
    }
}

impl<E, W: WaitStrategy, B, P> MPBuilder<NC, E, W, B, P> {
    /// Get an EventPoller.
    pub fn event_poller(self) -> (result: (EventPoller<E, B>, MPBuilder<SC, E, W, B, P>)) where
        B: Barrier,

        ensures
            self.polls_by(&result.0),
            exists|cursor: Arc<Cursor>|
                *cursor == result.0.reads_into() && #[trigger] self.gains(cursor, &result.1),
            result.1.common().thread_name == self.common().thread_name,
            result.1.common().affinity == self.common().affinity,
    {
        proof {
            use_type_invariant(&self);
        }
        self.get_event_poller::<SC>()
    }

    /// Add an event handler. The processor is to be run in a thread of its own.
    pub fn handle_events_with<EH: EventHandler<E>>(self, event_handler: EH) -> (result: (
        Processor<E, EH, W, B>,
        MPBuilder<SC, E, W, B, P>,
    ))
        ensures
            self.processes_by(&result.0.station),
            result.0.event_handler == event_handler,
            self.gains(result.0.station.consumer_cursor, &result.1),
            result.1.common().thread_name is None,
            result.1.common().affinity is None,
    {
        proof {
            use_type_invariant(&self);
        }
        self.add_event_handler::<EH, SC>(event_handler)
    }

    /// Add an event handler with a per-consumer state value.
    ///
    /// `initialize_state` goes with the processor into its thread and is called there, so that the
    /// state need not be `Send`. See [`EventHandlerWithState`].
    pub fn handle_events_and_state_with<EH, S, IS>(
        self,
        event_handler: EH,
        initialize_state: IS,
    ) -> (result: (StatefulProcessor<E, EH, W, B, IS>, MPBuilder<SC, E, W, B, P>)) where
        EH: EventHandlerWithState<E, S>,
        IS: FnOnce() -> S,

        ensures
            self.processes_by(&result.0.station),
            result.0.event_handler == event_handler,
            result.0.initialize_state == initialize_state,
            self.gains(result.0.station.consumer_cursor, &result.1),
            result.1.common().thread_name is None,
            result.1.common().affinity is None,
    {
        proof {
            use_type_invariant(&self);
        }
        self.add_event_handler_with_state::<EH, IS, SC>(event_handler, initialize_state)
    }
}

impl<E, W: WaitStrategy, B, P> MPBuilder<SC, E, W, B, P> {
    /// Get an EventPoller.
    pub fn event_poller(self) -> (result: (EventPoller<E, B>, MPBuilder<MC, E, W, B, P>)) where
        B: Barrier,

        ensures
            self.polls_by(&result.0),
            exists|cursor: Arc<Cursor>|
                *cursor == result.0.reads_into() && #[trigger] self.gains(cursor, &result.1),
            result.1.common().thread_name == self.common().thread_name,
            result.1.common().affinity == self.common().affinity,
    {
        proof {
            use_type_invariant(&self);
        }
        self.get_event_poller::<MC>()
    }

    /// Add an event handler. The processor is to be run in a thread of its own.
    pub fn handle_events_with<EH: EventHandler<E>>(self, event_handler: EH) -> (result: (
        Processor<E, EH, W, B>,
        MPBuilder<MC, E, W, B, P>,
    ))
        ensures
            self.processes_by(&result.0.station),
            result.0.event_handler == event_handler,
            self.gains(result.0.station.consumer_cursor, &result.1),
            result.1.common().thread_name is None,
            result.1.common().affinity is None,
    {
        proof {
            use_type_invariant(&self);
        }
        self.add_event_handler::<EH, MC>(event_handler)
    }

    /// Add an event handler with a per-consumer state value.
    ///
    /// `initialize_state` goes with the processor into its thread and is called there, so that the
    /// state need not be `Send`. See [`EventHandlerWithState`].
    pub fn handle_events_and_state_with<EH, S, IS>(
        self,
        event_handler: EH,
        initialize_state: IS,
    ) -> (result: (StatefulProcessor<E, EH, W, B, IS>, MPBuilder<MC, E, W, B, P>)) where
        EH: EventHandlerWithState<E, S>,
        IS: FnOnce() -> S,

        ensures
            self.processes_by(&result.0.station),
            result.0.event_handler == event_handler,
            result.0.initialize_state == initialize_state,
            self.gains(result.0.station.consumer_cursor, &result.1),
            result.1.common().thread_name is None,
            result.1.common().affinity is None,
    {
        proof {
            use_type_invariant(&self);
        }
        self.add_event_handler_with_state::<EH, IS, MC>(event_handler, initialize_state)
    }

    /// Complete the consumption of events so far and let new consumers process events after the
    /// previous consumer has read them.
    pub fn and_then(self) -> (builder: MPBuilder<NC, E, W, SingleConsumerBarrier, P>)
        ensures
            self.goes_on(&builder),
            builder.behind().watches() == self.cursors()[0],
    {
        proof {
            use_type_invariant(&self);
        }
        let mut shared = self.shared;
        let cursor = shared.current_consumer_cursors.remove(0);
        assert(shared.current_consumer_cursors@ == Seq::<Arc<Cursor>>::empty());
        let dependent_barrier = Arc::new(SingleConsumerBarrier::new(cursor));
        MPBuilder::<NC, E, W, SingleConsumerBarrier, P>::assemble(
            shared,
            self.producer_barrier,
            dependent_barrier,
        )
    }

    /// Finish the build and get what the producers are made of.
    pub fn build(self) -> (parts: MultiProducerParts<E, SingleConsumerBarrier, W, P>)
        ensures
            self.yields(&parts),
            parts.consumer_barrier.watches() == self.cursors()[0],
    {
        proof {
            use_type_invariant(&self);
        }
        let mut shared = self.shared;
        let cursor = shared.current_consumer_cursors.remove(0);
        MultiProducerParts {
            shutdown_at_sequence: shared.shutdown_at_sequence,
            ring_buffer: shared.ring_buffer,
            producer_barrier: self.producer_barrier,
            consumer_barrier: SingleConsumerBarrier::new(cursor),
            notifier: shared.notifier.clone(),
        }
    }
}

impl<E, W: WaitStrategy, B, P> MPBuilder<MC, E, W, B, P> {
    /// Get an EventPoller.
    pub fn event_poller(self) -> (result: (EventPoller<E, B>, MPBuilder<MC, E, W, B, P>)) where
        B: Barrier,

        ensures
            self.polls_by(&result.0),
            exists|cursor: Arc<Cursor>|
                *cursor == result.0.reads_into() && #[trigger] self.gains(cursor, &result.1),
            result.1.common().thread_name == self.common().thread_name,
            result.1.common().affinity == self.common().affinity,
    {
        proof {
            use_type_invariant(&self);
        }
        self.get_event_poller::<MC>()
    }

    /// Add an event handler. The processor is to be run in a thread of its own.
    pub fn handle_events_with<EH: EventHandler<E>>(self, event_handler: EH) -> (result: (
        Processor<E, EH, W, B>,
        MPBuilder<MC, E, W, B, P>,
    ))
        ensures
            self.processes_by(&result.0.station),
            result.0.event_handler == event_handler,
            self.gains(result.0.station.consumer_cursor, &result.1),
            result.1.common().thread_name is None,
            result.1.common().affinity is None,
    {
        proof {
            use_type_invariant(&self);
        }
        self.add_event_handler::<EH, MC>(event_handler)
    }

    /// Add an event handler with a per-consumer state value.
    ///
    /// `initialize_state` goes with the processor into its thread and is called there, so that the
    /// state need not be `Send`. See [`EventHandlerWithState`].
    pub fn handle_events_and_state_with<EH, S, IS>(
        self,
        event_handler: EH,
        initialize_state: IS,
    ) -> (result: (StatefulProcessor<E, EH, W, B, IS>, MPBuilder<MC, E, W, B, P>)) where
        EH: EventHandlerWithState<E, S>,
        IS: FnOnce() -> S,

        ensures
            self.processes_by(&result.0.station),
            result.0.event_handler == event_handler,
            result.0.initialize_state == initialize_state,
            self.gains(result.0.station.consumer_cursor, &result.1),
            result.1.common().thread_name is None,
            result.1.common().affinity is None,
    {
        proof {
            use_type_invariant(&self);
        }
        self.add_event_handler_with_state::<EH, IS, MC>(event_handler, initialize_state)
    }

    /// Complete the (concurrent) consumption of events so far and let new consumers process events
    /// after all previous consumers have read them.
    pub fn and_then(self) -> (builder: MPBuilder<NC, E, W, MultiConsumerBarrier, P>)
        ensures
            self.goes_on(&builder),
            builder.behind().watches() == self.cursors(),
    {
        let mut shared = self.shared;
        let mut cursors: Vec<Arc<Cursor>> = Vec::new();
        std::mem::swap(&mut cursors, &mut shared.current_consumer_cursors);
        let dependent_barrier = Arc::new(MultiConsumerBarrier::new(cursors));
        MPBuilder::<NC, E, W, MultiConsumerBarrier, P>::assemble(
            shared,
            self.producer_barrier,
            dependent_barrier,
        )
    }

    /// Complete consumption of events so far and gate the next stage on the slowest consumer *and*
    /// the provided gated sequences (e.g., flushed WAL offset).
    ///
    /// Use the same gates you got from [`new_gates`](Self::new_gates) to advance external
    /// dependencies. They automatically wake blocked downstream consumers.
    pub fn and_then_with_dependents(self, gates: &[GatedSequence<W::Notifier>]) -> (builder: MPBuilder<
        NC,
        E,
        W,
        MultiConsumerDependentsBarrier,
        P,
    >)
        ensures
            self.goes_on(&builder),
            builder.behind().watches() == self.cursors(),
            builder.behind().gated_by().len() == gates@.len(),
            forall|i: int|
                0 <= i < gates@.len() ==> (#[trigger] builder.behind().gated_by()[i]).cell()
                    == gates@[i].cell(),
    {
        let mut shared = self.shared;
        let mut cursors: Vec<Arc<Cursor>> = Vec::new();
        std::mem::swap(&mut cursors, &mut shared.current_consumer_cursors);
        let mut gating: Vec<Arc<DependentSequence>> = Vec::new();
        let mut i: usize = 0;
        while i < gates.len()
            invariant
                i <= gates@.len(),
                gating@.len() == i,
                forall|k: int| 0 <= k < i ==> (#[trigger] gating@[k]).cell() == gates@[k].cell(),
            decreases gates@.len() - i,
        {
            gating.push(Arc::new(gates[i].dependent()));
            i += 1;
        }
        let dependent_barrier = Arc::new(MultiConsumerDependentsBarrier::new(cursors, gating));
        MPBuilder::<NC, E, W, MultiConsumerDependentsBarrier, P>::assemble(
            shared,
            self.producer_barrier,
            dependent_barrier,
        )
    }

    /// Finish the build and get what the producers are made of.
    pub fn build(self) -> (parts: MultiProducerParts<E, MultiConsumerBarrier, W, P>)
        ensures
            self.yields(&parts),
            parts.consumer_barrier.watches() == self.cursors(),
    {
        let shared = self.shared;
        MultiProducerParts {
            shutdown_at_sequence: shared.shutdown_at_sequence,
            ring_buffer: shared.ring_buffer,
            producer_barrier: self.producer_barrier,
            consumer_barrier: MultiConsumerBarrier::new(shared.current_consumer_cursors),
            notifier: shared.notifier.clone(),
        }
    }
}

} // verus!
