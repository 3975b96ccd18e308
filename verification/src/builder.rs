//! Building a disruptor step by step.

pub mod multi;

use crate::affinity::CoreId;
use crate::atomics::{cell_made, new_marker};
use crate::cursor::Cursor;
use crate::ringbuffer::RingBuffer;
use crate::sequence::INITIAL_SEQUENCE;
use crate::wait_strategies::WaitStrategy;
use crossbeam_utils::CachePadded;
use std::sync::atomic::AtomicI64;
use std::sync::Arc;
use vstd::arithmetic::power2::is_pow2;
use vstd::prelude::*;

verus! {

/// How many consumers the current stage of a builder has.
pub trait Stage {
    /// Whether the stage can have so many.
    spec fn admits(consumers: nat) -> bool;
}

/// No consumer yet.
pub struct NC;

/// A single consumer.
pub struct SC;

/// Multiple consumers.
pub struct MC;

impl Stage for NC {
    open spec fn admits(consumers: nat) -> bool {
        consumers == 0
    }
}

impl Stage for SC {
    open spec fn admits(consumers: nat) -> bool {
        consumers == 1
    }
}

impl Stage for MC {
    open spec fn admits(consumers: nat) -> bool {
        consumers >= 2
    }
}

/// What all stages of a builder share.
pub struct Shared<E, W: WaitStrategy> {
    /// The ring buffer with the events.
    pub ring_buffer: Arc<RingBuffer<E>>,
    /// The marker that tells from which sequence on there are no more events.
    pub shutdown_at_sequence: Arc<CachePadded<AtomicI64>>,
    /// How the consumers wait.
    pub wait_strategy: W,
    /// Whom to wake when a sequence has advanced.
    pub notifier: W::Notifier,
    /// The cursors of the consumers of the current stage.
    pub current_consumer_cursors: Vec<Arc<Cursor>>,
    /// The name that the thread of the next processor is to have.
    pub thread_name: Option<String>,
    /// The core that the thread of the next processor is to be pinned to.
    pub affinity: Option<CoreId>,
}

impl<E, W: WaitStrategy> Shared<E, W> {
    /// Nothing was added yet. The ring buffer has `size` slots, each filled from the factory, and
    /// the marker and the settings name nothing.
    pub open spec fn begun<F>(&self, size: usize, event_factory: F, wait_strategy: W) -> bool where
        F: FnMut() -> E,
     {
        &&& self.ring_buffer.wf()
        &&& self.ring_buffer.size() == size
        &&& self.ring_buffer.filled_from(size, event_factory)
        &&& forall|i: int|
            0 <= i < size ==> event_factory.ensures((), #[trigger] self.ring_buffer.events()[i])
        &&& cell_made(*self.shutdown_at_sequence, INITIAL_SEQUENCE)
        &&& self.wait_strategy == wait_strategy
        &&& call_ensures(W::notifier, (&wait_strategy,), self.notifier)
        &&& self.current_consumer_cursors@ == Seq::<Arc<Cursor>>::empty()
        &&& self.thread_name is None
        &&& self.affinity is None
    }

    /// Makes the ring buffer, filled from the factory, and the marker, which names no event.
    pub fn new<F>(size: usize, event_factory: F, wait_strategy: W) -> (shared: Self) where
        F: FnMut() -> E,

        requires
            is_pow2(size as int),
            size <= i64::MAX,
            event_factory.requires(()),
        ensures
            shared.begun(size, event_factory, wait_strategy),
    {
        let notifier = wait_strategy.notifier();
        Shared {
            ring_buffer: Arc::new(RingBuffer::new(size, event_factory)),
            shutdown_at_sequence: Arc::new(new_marker(INITIAL_SEQUENCE)),
            wait_strategy,
            notifier,
            current_consumer_cursors: Vec::new(),
            thread_name: None,
            affinity: None,
        }
    }

    /// The ring buffer, the marker, the strategy and the notifier are those of `other`.
    pub open spec fn same_base(&self, other: &Self) -> bool {
        &&& self.ring_buffer == other.ring_buffer
        &&& self.shutdown_at_sequence == other.shutdown_at_sequence
        &&& self.wait_strategy == other.wait_strategy
        &&& self.notifier == other.notifier
    }

    /// The same, but for the name and the core, which a processor has taken over.
    pub open spec fn without_thread_settings(&self, other: &Self) -> bool {
        &&& self.same_base(other)
        &&& self.current_consumer_cursors == other.current_consumer_cursors
        &&& self.thread_name is None
        &&& self.affinity is None
    }

    /// The same, but for the cursor, which has been added to those of the current stage.
    pub open spec fn with_cursor(&self, other: &Self, cursor: Arc<Cursor>) -> bool {
        &&& self.same_base(other)
        &&& self.current_consumer_cursors@ == other.current_consumer_cursors@.push(cursor)
        &&& self.thread_name == other.thread_name
        &&& self.affinity == other.affinity
    }

    /// Adds a consumer, by its cursor, to the current stage.
    pub fn add_cursor(&mut self, cursor: Arc<Cursor>)
        ensures
            final(self).with_cursor(old(self), cursor),
    {
        self.current_consumer_cursors.push(cursor);
    }
}

} // verus!
