//! The record of attempts to pin the thread.
//!
//! What an [`Attempts`] says was tried by it, in this order: its field is private, and nothing but
//! an attempt extends it.

use crate::affinity::{pin_current_thread, pin_tried, CoreId};
use crate::effects::{number, Effect};
use vstd::prelude::*;

verus! {

/// One attempt.
pub struct Attempt {
    /// The core that the thread was to be pinned to.
    pub core: usize,
    /// Whether that succeeded.
    pub pinned: bool,
}

/// The attempts of a thread.
pub struct Attempts {
    made: Ghost<Seq<Attempt>>,
}

impl Attempts {
    /// The attempts, in order.
    pub closed spec fn made(&self) -> Seq<Attempt> {
        self.made@
    }

    /// Nothing was tried yet.
    pub fn new() -> (attempts: Self)
        ensures
            attempts.made() == Seq::<Attempt>::empty(),
        opens_invariants none
    {
        Attempts { made: Ghost(Seq::empty()) }
    }

    /// Tries to pin the thread to the core.
    pub fn pin(&mut self, core: CoreId) -> (pinned: bool)
        ensures
            pin_tried(core.number(), pinned),
            final(self).made() == old(self).made().push(Attempt { core: core.number(), pinned }),
        opens_invariants [number(Effect::Pin { core: Some(core.number()) })]
    {
        proof {
            use_type_invariant(&core);
        }
        let pinned = pin_current_thread(core.id);
        self.made = Ghost(self.made@.push(Attempt { core: core.id, pinned }));
        pinned
    }
}

} // verus!
