//! The cursor in which a consumer announces how far it has read.

use crate::atomics::{
    cell_made, load_relaxed, loaded_relaxed, new_cell, padded_atomic, store_release, stored_release,
    GateCell, OwnCell, Readable, View,
};
use crate::effects::{number, Effect};
use crate::Sequence;
use crossbeam_utils::CachePadded;
use std::sync::atomic::AtomicI64;
use std::sync::Arc;
use vstd::prelude::*;

verus! {

/// The last sequence that a consumer is done with, in a cell that other threads watch.
pub struct Cursor {
    counter: OwnCell,
}

impl Cursor {
    /// The cell behind the cursor.
    pub closed spec fn cell(&self) -> CachePadded<AtomicI64> {
        self.counter.padded()
    }

    /// A relaxed load of the cursor gave the sequence.
    pub open spec fn shows(&self, sequence: Sequence) -> bool {
        loaded_relaxed(self.cell(), sequence)
    }

    /// The sequence was stored in the cursor.
    pub open spec fn moved_to(&self, sequence: Sequence) -> bool {
        stored_release(self.cell(), sequence)
    }

    /// Makes a cursor that stands at the sequence.
    pub fn new(sequence: Sequence) -> (cursor: Self)
        ensures
            cell_made(cursor.cell(), sequence),
    {
        Cursor { counter: new_cell(sequence) }
    }

    /// Where the cursor stands, read with `Relaxed` ordering.
    pub fn relaxed_value(&self) -> (sequence: Sequence)
        ensures
            self.shows(sequence),
    {
        load_relaxed(&self.counter)
    }

    /// Moves the cursor, with `Release` ordering.
    pub fn store(&self, sequence: Sequence)
        ensures
            self.moved_to(sequence),
        opens_invariants none
        no_unwind
    {
        store_release(&self.counter, sequence)
    }
}

/// A cursor of somebody else, to be watched. It cannot be moved by whoever watches it.
pub struct Watched {
    view: View,
    cursor: Ghost<Arc<Cursor>>,
}

impl Watched {
    #[verifier::type_invariant]
    spec fn is_of_cursor(self) -> bool {
        self.view.padded() == self.cursor@.cell()
    }

    /// The cursor.
    pub closed spec fn watched(&self) -> Arc<Cursor> {
        self.cursor@
    }

    /// Watches the cursor.
    pub fn new(cursor: &Arc<Cursor>) -> (watched: Self)
        ensures
            watched.watched() == *cursor,
    {
        Watched { view: cursor.counter.view(), cursor: Ghost(*cursor) }
    }

    /// Where the cursor stands, read with `Relaxed` ordering.
    pub fn relaxed_value(&self) -> (sequence: Sequence)
        ensures
            self.watched().shows(sequence),
    {
        proof {
            use_type_invariant(self);
        }
        load_relaxed(&self.view)
    }
}

/// A cursor, to be moved by its processor. It keeps a record of where it was moved to.
pub struct Mover {
    cell: GateCell,
    cursor: Ghost<Cursor>,
    moved: Ghost<Seq<Sequence>>,
}

impl Mover {
    #[verifier::type_invariant]
    spec fn is_of_cursor(self) -> bool {
        self.cell.padded() == self.cursor@.cell()
    }

    /// The cursor.
    pub closed spec fn moves(&self) -> Cursor {
        self.cursor@
    }

    /// Where the cursor was moved to, in order.
    pub closed spec fn moved(&self) -> Seq<Sequence> {
        self.moved@
    }

    /// The cursor was not moved yet.
    pub fn new(cursor: &Cursor) -> (mover: Self)
        ensures
            mover.moves() == *cursor,
            mover.moved() == Seq::<Sequence>::empty(),
    {
        Mover { cell: cursor.counter.gate(), cursor: Ghost(*cursor), moved: Ghost(Seq::empty()) }
    }

    /// Moves the cursor, with `Release` ordering. Nothing else is stored anywhere.
    pub fn move_to(&mut self, sequence: Sequence)
        ensures
            final(self).moves() == old(self).moves(),
            final(self).moved() == old(self).moved().push(sequence),
            old(self).moves().moved_to(sequence),
        opens_invariants [
            number(
                Effect::Store {
                    atomic: padded_atomic(old(self).moves().cell()),
                    value: sequence,
                },
            ),
        ]
        no_unwind
    {
        proof {
            use_type_invariant(&*self);
        }
        self.cell.store_release(sequence);
        self.moved = Ghost(self.moved@.push(sequence));
    }
}

} // verus!
