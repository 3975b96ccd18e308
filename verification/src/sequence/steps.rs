//! The record of how a gated sequence is advanced.
//!
//! What an [`Advance`] says was done by it, in this order: its fields are private, and nothing but
//! the methods that do something extends it.

use crate::atomics::{exchanged, loaded_acquire, padded_atomic, stored_release};
use crate::effects::{number, Effect};
use crate::sequence::DependentSequence;
use crate::wait_strategies::{woken, WakeupNotifier};
use crossbeam_utils::CachePadded;
use std::sync::atomic::AtomicI64;
use vstd::prelude::*;

verus! {

/// One step.
pub enum Step {
    /// The value was stored.
    Stored {
        /// The value.
        value: i64,
    },
    /// An exchange was tried.
    Exchanged {
        /// The value that was expected.
        current: i64,
        /// The value to be stored then.
        new: i64,
        /// What came of it.
        result: Result<i64, i64>,
    },
    /// Whoever is blocked was woken.
    Woken,
}

/// A sequence that is advanced by an [`Advance`] only.
pub struct Lever {
    sequence: DependentSequence,
}

impl Lever {
    /// The cell of the sequence.
    pub closed spec fn cell(&self) -> CachePadded<AtomicI64> {
        self.sequence.cell()
    }

    /// A lever for the sequence.
    pub fn new(sequence: DependentSequence) -> (lever: Self)
        ensures
            lever.cell() == sequence.cell(),
    {
        Lever { sequence }
    }

    /// Loads the current value with `Acquire` ordering.
    pub fn get(&self) -> (v: i64)
        ensures
            loaded_acquire(self.cell(), v),
    {
        self.sequence.get()
    }

    /// A handle on the sequence.
    pub fn dependent(&self) -> (sequence: DependentSequence)
        ensures
            sequence.cell() == self.cell(),
    {
        self.sequence.clone()
    }

    /// The sequence and a notifier, with which nothing was done yet.
    pub fn advance<'a, N: WakeupNotifier>(&'a self, notifier: &'a N) -> (advance: Advance<'a, N>)
        ensures
            advance.steps() == Seq::<Step>::empty(),
            advance.cell() == self.cell(),
            advance.wakes() == *notifier,
        opens_invariants none
    {
        Advance::new(&self.sequence, notifier)
    }
}

/// A sequence and a notifier, and what was done with them.
pub struct Advance<'a, N> {
    sequence: &'a DependentSequence,
    notifier: &'a N,
    steps: Ghost<Seq<Step>>,
}

impl<'a, N: WakeupNotifier> Advance<'a, N> {
    /// The steps, in order.
    pub closed spec fn steps(&self) -> Seq<Step> {
        self.steps@
    }

    /// The cell of the sequence.
    pub closed spec fn cell(&self) -> CachePadded<AtomicI64> {
        self.sequence.cell()
    }

    /// The notifier.
    pub closed spec fn wakes(&self) -> N {
        *self.notifier
    }

    /// The steps were made in addition, and nothing else has changed.
    pub open spec fn did(&self, before: &Self, steps: Seq<Step>) -> bool {
        &&& self.steps() == before.steps() + steps
        &&& self.cell() == before.cell()
        &&& self.wakes() == before.wakes()
    }

    /// Nothing was done yet.
    pub fn new(sequence: &'a DependentSequence, notifier: &'a N) -> (advance: Self)
        ensures
            advance.steps() == Seq::<Step>::empty(),
            advance.cell() == sequence.cell(),
            advance.wakes() == *notifier,
        opens_invariants none
    {
        Advance { sequence, notifier, steps: Ghost(Seq::empty()) }
    }

    /// Stores a value with `Release` ordering.
    pub fn store(&mut self, value: i64)
        ensures
            stored_release(old(self).cell(), value),
            final(self).did(old(self), seq![Step::Stored { value }]),
        opens_invariants [number(Effect::Store { atomic: padded_atomic(old(self).cell()), value })]
    {
        self.sequence.set(value);
        self.steps = Ghost(self.steps@ + seq![Step::Stored { value }]);
    }

    /// Stores `new` if the value is `current`.
    pub fn exchange(&mut self, current: i64, new: i64) -> (result: Result<i64, i64>)
        ensures
            exchanged(old(self).cell(), current, new, result),
            match result {
                Ok(previous) => previous == current,
                Err(previous) => previous != current,
            },
            final(self).did(old(self), seq![Step::Exchanged { current, new, result }]),
        opens_invariants [
            number(Effect::Exchange { atomic: padded_atomic(old(self).cell()), current, new }),
        ]
    {
        let result = self.sequence.compare_and_set(current, new);
        self.steps = Ghost(self.steps@ + seq![Step::Exchanged { current, new, result }]);
        result
    }

    /// Wakes whoever is blocked.
    pub fn wake(&mut self)
        ensures
            woken(&old(self).wakes()),
            final(self).did(old(self), seq![Step::Woken]),
        opens_invariants old(self).wakes().effects()
    {
        self.notifier.wake();
        self.steps = Ghost(self.steps@ + seq![Step::Woken]);
    }
}

} // verus!
