//! Numbers for what threads do to each other.
//!
//! A function may say in `opens_invariants` by number what can be opened in it, and nothing that
//! it calls can open more. The library numbers writes to shared cells and attempts to pin a thread
//! in the same way: a function that names the numbers of some of these effects has no others.

use std::sync::atomic::AtomicI64;
use vstd::prelude::*;

verus! {

/// What a thread does.
pub enum Effect {
    /// It stores the value.
    Store {
        /// Where.
        atomic: AtomicI64,
        /// The value.
        value: i64,
    },
    /// It tries to exchange one value for another.
    Exchange {
        /// Where.
        atomic: AtomicI64,
        /// The value that it expects.
        current: i64,
        /// The value that it stores then.
        new: i64,
    },
    /// It tries to pin itself to the core, if there is one.
    Pin {
        /// The number of the core.
        core: Option<usize>,
    },
}

/// Different effects have different numbers.
pub open spec fn tells_apart(numbering: spec_fn(Effect) -> int) -> bool {
    forall|one: Effect, other: Effect| #[trigger]
        numbering(one) == #[trigger] numbering(other) ==> one == other
}

/// The number of the effect.
pub closed spec fn number(effect: Effect) -> int {
    (choose|numbering: spec_fn(Effect) -> int| tells_apart(numbering))(effect)
}

} // verus!
