//! A low latency library for handing events from producers to consumers through a ring buffer.
//!
//! Events live in the slots of a [`RingBuffer`](ringbuffer::RingBuffer) and are numbered by a
//! [`Sequence`]. A consumer announces how far it has read in a [`Cursor`](cursor::Cursor), and
//! whoever comes after it, a later consumer or a producer, watches a
//! [`Barrier`](barrier::Barrier) made of such cursors.

pub mod affinity;
pub mod atomics;
pub mod barrier;
pub mod builder;
pub mod consumer;
pub mod cursor;
pub mod effects;
pub mod event_handler;
pub mod laws;
pub mod monitor;
pub mod ringbuffer;
pub mod sequence;
pub mod wait_strategies;

use vstd::prelude::*;

verus! {

/// The number of an event. The first event has number zero; minus one stands for "none yet".
pub type Sequence = i64;

} // verus!
