//! How a poller keeps account of what it has read.
//!
//! A poller reads its cursor through a [`Progress`]. It can move the cursor only by a [`Claim`],
//! and both keep a record: the one of how many claims were given out, the other of where it has
//! moved the cursor to. Their fields are private, so there is no other way.

pub use crate::consumer::claim::Claim;

use crate::consumer::claim::Claims;
use crate::cursor::{Cursor, Watched};
use crate::Sequence;
use std::sync::Arc;
use vstd::prelude::*;

verus! {

/// The cursor of a poller, to be read.
pub struct Progress {
    watched: Watched,
    claims: Claims,
}

impl Progress {
    #[verifier::type_invariant]
    spec fn is_of_one_cursor(self) -> bool {
        *self.watched.watched() == self.claims.on()
    }

    /// The cursor.
    pub closed spec fn reads_into(&self) -> Cursor {
        *self.watched.watched()
    }

    /// How many claims were given out.
    pub closed spec fn claims(&self) -> nat {
        self.claims.given()
    }

    /// Progress that is kept in the cursor.
    pub fn new(cursor: Arc<Cursor>) -> (progress: Self)
        ensures
            progress.reads_into() == *cursor,
            progress.claims() == 0,
    {
        Progress { watched: Watched::new(&cursor), claims: Claims::new(cursor) }
    }

    /// Where the cursor stands, read with `Relaxed` ordering.
    pub fn position(&self) -> (sequence: Sequence)
        ensures
            self.reads_into().shows(sequence),
    {
        self.watched.relaxed_value()
    }

    /// Gives out a claim, which has not moved the cursor.
    pub fn claim(&mut self) -> (claim: Claim)
        ensures
            final(self).reads_into() == old(self).reads_into(),
            final(self).claims() == old(self).claims() + 1,
            claim.moves() == old(self).reads_into(),
            claim.announced() == Seq::<Sequence>::empty(),
    {
        proof {
            use_type_invariant(&*self);
        }
        self.claims.claim()
    }
}

} // verus!
