//! Processors: consumers that run in a thread of their own.
//!
//! A [`Processor`] is made where the disruptor is built and sent to its thread. There it is pinned
//! to its core and started, which gives a [`RunningProcessor`].

use crate::affinity::{number_of, pin_tried, set_affinity_if_defined, CoreId, Pinning};
use crate::atomics::{cell_made, loaded};
use crate::barrier::Barrier;
use crate::builder::Shared;
use crate::consumer::desk::{Act, Desk};
use crate::consumer::{
    goes_on_with, ran, run_processor_loop, stops, takes_all, ProcessorExit,
};
use crate::cursor::Cursor;
use crate::effects::{number, Effect};
use crate::event_handler::{EventSink, HandlerSink, StatefulSink};
use crate::ringbuffer::RingBuffer;
use crate::sequence::INITIAL_SEQUENCE;
use crate::wait_strategies::{WaitOutcome, WaitStrategy};
use crate::Sequence;
use crossbeam_utils::CachePadded;
use std::sync::atomic::AtomicI64;
use std::sync::Arc;
use vstd::prelude::*;

verus! {

/// What a processor works with, whoever handles the events.
pub struct Station<E, W: WaitStrategy, B> {
    /// The ring buffer that the events are read from.
    pub ring_buffer: Arc<RingBuffer<E>>,
    /// The barrier that tells which events are available.
    pub barrier: Arc<B>,
    /// The marker that tells from which sequence on there are no more events.
    pub shutdown_at_sequence: Arc<CachePadded<AtomicI64>>,
    /// The cursor that tells how far the processor has read.
    pub consumer_cursor: Arc<Cursor>,
    /// How the processor waits.
    pub wait_strategy: W,
    /// Whom the processor wakes when it has moved its cursor.
    pub notifier: W::Notifier,
    /// The name that its thread is to have.
    pub thread_name: Option<String>,
    /// The core that its thread is to be pinned to.
    pub affinity: Option<CoreId>,
}

impl<E, W: WaitStrategy, B> Station<E, W, B> {
    /// The station fits what its builder shares: it waits behind the barrier, has a fresh cursor
    /// that names no event, and has the name and the core that were set.
    pub open spec fn fits(
        &self,
        builder: &Shared<E, W>,
        barrier: &B,
        notifier: &W::Notifier,
    ) -> bool {
        &&& self.ring_buffer == builder.ring_buffer
        &&& *self.barrier == *barrier
        &&& self.shutdown_at_sequence == builder.shutdown_at_sequence
        &&& cell_made(self.consumer_cursor.cell(), INITIAL_SEQUENCE)
        &&& cloned(builder.wait_strategy, self.wait_strategy)
        &&& self.notifier == *notifier
        &&& self.thread_name == builder.thread_name
        &&& self.affinity == builder.affinity
    }

    /// Makes the station of a processor that waits behind the barrier. It takes the name and the
    /// core over from the builder. Its cursor says that not even the first event was read.
    pub fn new(
        builder: &mut Shared<E, W>,
        barrier: Arc<B>,
        notifier: W::Notifier,
    ) -> (station: Self)
        ensures
            station.fits(old(builder), &*barrier, &notifier),
            final(builder).without_thread_settings(old(builder)),
    {
        Station {
            ring_buffer: Arc::clone(&builder.ring_buffer),
            barrier,
            shutdown_at_sequence: Arc::clone(&builder.shutdown_at_sequence),
            consumer_cursor: Arc::new(Cursor::new(INITIAL_SEQUENCE)),
            wait_strategy: builder.wait_strategy.clone(),
            notifier,
            thread_name: builder.thread_name.take(),
            affinity: builder.affinity.take(),
        }
    }

    /// Pins the thread that calls this to the core of the processor, if it has one.
    pub fn pin(&self) -> (pinning: Pinning)
        ensures
            match self.affinity {
                None => pinning is Undefined,
                Some(core) => match pinning {
                    Pinning::Undefined => false,
                    Pinning::Pinned => pin_tried(core.number(), true),
                    Pinning::Failed { core: failed } => failed == core && pin_tried(
                        core.number(),
                        false,
                    ),
                },
            },
            call_ensures(set_affinity_if_defined, (self.affinity,), pinning),
        opens_invariants [number(Effect::Pin { core: number_of(self.affinity) })]
    {
        set_affinity_if_defined(self.affinity)
    }
}

/// A processor that passes its events to a handler.
pub struct Processor<E, EP, W: WaitStrategy, B> {
    /// What it works with.
    pub station: Station<E, W, B>,
    /// Who handles the events.
    pub event_handler: EP,
}

/// A processor that passes its events to a handler together with a state.
pub struct StatefulProcessor<E, EP, W: WaitStrategy, B, IS> {
    /// What it works with.
    pub station: Station<E, W, B>,
    /// Who handles the events.
    pub event_handler: EP,
    /// How the state is made, once the processor is in its thread.
    pub initialize_state: IS,
}

/// A processor in its thread.
pub struct RunningProcessor<E, W: WaitStrategy, B, S> {
    /// The ring buffer that the events are read from.
    pub ring_buffer: Arc<RingBuffer<E>>,
    /// The barrier that tells which events are available.
    pub barrier: Arc<B>,
    /// The marker that tells from which sequence on there are no more events.
    pub shutdown_at_sequence: Arc<CachePadded<AtomicI64>>,
    /// What the processor does its work with.
    pub desk: Desk<E, W::Waiter, S, W::Notifier>,
    /// The event that it waits for.
    pub sequence: Sequence,
}

impl<E, W: WaitStrategy, B, S> RunningProcessor<E, W, B, S> {
    /// The processor has the station's barrier, cursor and notifier and a new waiter, and has done
    /// nothing yet.
    pub open spec fn starts_at(&self, station: &Station<E, W, B>) -> bool {
        &&& self.ring_buffer == station.ring_buffer
        &&& self.barrier == station.barrier
        &&& self.shutdown_at_sequence == station.shutdown_at_sequence
        &&& self.desk.acts() == Seq::<Act<E>>::empty()
        &&& self.desk.keeps_account()
        &&& self.desk.moves() == *station.consumer_cursor
        &&& self.desk.wakes() == station.notifier
        &&& self.sequence == 0
        &&& call_ensures(W::new_waiter, (&station.wait_strategy,), self.desk.waits_with())
    }
}

/// Makes a processor that passes the events behind the barrier to the handler. Whoever gets it
/// runs it in a thread. The cursor is the one that the processor moves.
pub fn prepare_processor<E, EP, W: WaitStrategy, B>(
    event_handler: EP,
    builder: &mut Shared<E, W>,
    barrier: Arc<B>,
    notifier: W::Notifier,
) -> (prepared: (Arc<Cursor>, Processor<E, EP, W, B>))
    ensures
        prepared.1.station.fits(old(builder), &*barrier, &notifier),
        prepared.1.event_handler == event_handler,
        prepared.0 == prepared.1.station.consumer_cursor,
        final(builder).without_thread_settings(old(builder)),
{
    let station = Station::new(builder, barrier, notifier);
    let consumer_cursor = Arc::clone(&station.consumer_cursor);
    (consumer_cursor, Processor { station, event_handler })
}

/// Makes a processor that passes the events behind the barrier to the handler, together with a
/// state that is made in the thread of the processor. The cursor is the one that it moves.
pub fn prepare_processor_with_state<E, EP, W: WaitStrategy, B, IS>(
    event_handler: EP,
    builder: &mut Shared<E, W>,
    barrier: Arc<B>,
    initialize_state: IS,
    notifier: W::Notifier,
) -> (prepared: (Arc<Cursor>, StatefulProcessor<E, EP, W, B, IS>))
    ensures
        prepared.1.station.fits(old(builder), &*barrier, &notifier),
        prepared.1.event_handler == event_handler,
        prepared.1.initialize_state == initialize_state,
        prepared.0 == prepared.1.station.consumer_cursor,
        final(builder).without_thread_settings(old(builder)),
{
    let station = Station::new(builder, barrier, notifier);
    let consumer_cursor = Arc::clone(&station.consumer_cursor);
    (consumer_cursor, StatefulProcessor { station, event_handler, initialize_state })
}

impl<E, EP, W: WaitStrategy, B> Processor<E, EP, W, B> {
    /// Gets ready to run, from the first event on.
    pub fn start(self) -> (running: RunningProcessor<E, W, B, HandlerSink<EP>>)
        ensures
            running.starts_at(&self.station),
            running.desk.passes_to().event_handler == self.event_handler,
    {
        let station = self.station;
        let waiter = station.wait_strategy.new_waiter();
        let sink = HandlerSink { event_handler: self.event_handler };
        RunningProcessor {
            ring_buffer: station.ring_buffer,
            barrier: station.barrier,
            shutdown_at_sequence: station.shutdown_at_sequence,
            desk: Desk::new(waiter, sink, station.consumer_cursor, station.notifier),
            sequence: 0,
        }
    }
}

impl<E, EP, W: WaitStrategy, B, IS> StatefulProcessor<E, EP, W, B, IS> {
    /// Makes the state and gets ready to run, from the first event on.
    pub fn start<S>(self) -> (running: RunningProcessor<E, W, B, StatefulSink<EP, S>>) where
        IS: FnOnce() -> S,

        requires
            self.initialize_state.requires(()),
        ensures
            running.starts_at(&self.station),
            running.desk.passes_to().event_handler == self.event_handler,
            self.initialize_state.ensures((), running.desk.passes_to().state),
    {
        let station = self.station;
        let waiter = station.wait_strategy.new_waiter();
        let state = (self.initialize_state)();
        let sink = StatefulSink { event_handler: self.event_handler, state };
        RunningProcessor {
            ring_buffer: station.ring_buffer,
            barrier: station.barrier,
            shutdown_at_sequence: station.shutdown_at_sequence,
            desk: Desk::new(waiter, sink, station.consumer_cursor, station.notifier),
            sequence: 0,
        }
    }
}

impl<E, W: WaitStrategy, B: Barrier, S: EventSink<E>> RunningProcessor<E, W, B, S> {
    /// Waits for events and passes them to the sink until the disruptor is shut down. After a
    /// timeout it can be called again and goes on where it stopped.
    pub fn run(&mut self) -> (exit: ProcessorExit)
        requires
            takes_all::<E, S>(old(self).desk.passes_to()),
            old(self).sequence >= 0,
        ensures
            takes_all::<E, S>(final(self).desk.passes_to()),
            final(self).ring_buffer == old(self).ring_buffer,
            final(self).barrier == old(self).barrier,
            final(self).shutdown_at_sequence == old(self).shutdown_at_sequence,
            exists|answers: Seq<WaitOutcome>|
                {
                    &&& #[trigger] ran(
                        &old(self).desk,
                        &final(self).desk,
                        &*old(self).barrier,
                        &*old(self).shutdown_at_sequence,
                        &*old(self).ring_buffer,
                        old(self).sequence as int,
                        answers,
                    )
                    &&& stops(answers, exit)
                    &&& final(self).sequence == goes_on_with(old(self).sequence as int, answers)
                },
            exit is Shutdown ==> loaded(*old(self).shutdown_at_sequence, final(self).sequence),
            final(self).sequence >= old(self).sequence,
    {
        let exit = run_processor_loop(
            &mut self.desk,
            &*self.barrier,
            &*self.shutdown_at_sequence,
            &*self.ring_buffer,
            &mut self.sequence,
        );
        proof {
            let answers = choose|answers: Seq<WaitOutcome>|
                {
                    &&& #[trigger] ran(
                        &old(self).desk,
                        &self.desk,
                        &*self.barrier,
                        &*self.shutdown_at_sequence,
                        &*self.ring_buffer,
                        old(self).sequence as int,
                        answers,
                    )
                    &&& stops(answers, exit)
                    &&& self.sequence == goes_on_with(old(self).sequence as int, answers)
                };
            assert(ran(
                &old(self).desk,
                &self.desk,
                &*old(self).barrier,
                &*old(self).shutdown_at_sequence,
                &*old(self).ring_buffer,
                old(self).sequence as int,
                answers,
            ));
        }
        exit
    }
}

} // verus!
