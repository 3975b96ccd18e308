//! The right to move the cursor of a poller.
//!
//! A [`Claim`] keeps a record of where it has moved the cursor to, and [`Claims`] of how many were
//! given out. Their fields are private, so nothing else can be done with the cursor by whoever has
//! one of them.

use crate::cursor::Cursor;
use crate::Sequence;
use std::sync::Arc;
use vstd::prelude::*;

verus! {

/// The cursor of a poller, to be moved.
pub struct Claim {
    cursor: Arc<Cursor>,
    announced: Ghost<Seq<Sequence>>,
}

impl Claim {
    /// The cursor.
    pub closed spec fn moves(&self) -> Cursor {
        *self.cursor
    }

    /// Where the claim has moved the cursor to, in order.
    pub closed spec fn announced(&self) -> Seq<Sequence> {
        self.announced@
    }

    /// Moves the cursor.
    pub fn announce(&mut self, sequence: Sequence)
        ensures
            final(self).moves() == old(self).moves(),
            final(self).announced() == old(self).announced().push(sequence),
            old(self).moves().moved_to(sequence),
        opens_invariants none
        no_unwind
    {
        self.cursor.store(sequence);
        self.announced = Ghost(self.announced@.push(sequence));
    }
}

/// Who gives out claims on a cursor.
pub struct Claims {
    cursor: Arc<Cursor>,
    given: Ghost<nat>,
}

impl Claims {
    /// The cursor.
    pub closed spec fn on(&self) -> Cursor {
        *self.cursor
    }

    /// How many claims were given out.
    pub closed spec fn given(&self) -> nat {
        self.given@
    }

    /// No claim on the cursor was given out yet.
    pub fn new(cursor: Arc<Cursor>) -> (claims: Self)
        ensures
            claims.on() == *cursor,
            claims.given() == 0,
    {
        Claims { cursor, given: Ghost(0nat) }
    }

    /// Gives out a claim, which has not moved the cursor.
    pub fn claim(&mut self) -> (claim: Claim)
        ensures
            final(self).on() == old(self).on(),
            final(self).given() == old(self).given() + 1,
            claim.moves() == old(self).on(),
            claim.announced() == Seq::<Sequence>::empty(),
        opens_invariants none
        no_unwind
    {
        self.given = Ghost(self.given@ + 1);
        Claim { cursor: Arc::clone(&self.cursor), announced: Ghost(Seq::empty()) }
    }
}

} // verus!
