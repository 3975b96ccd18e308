//! Sequences that actors outside the library advance.

pub mod steps;

use crate::atomics::{
    cell_made, exchanged, load_acquire, loaded_acquire, padded_atomic, stored_release, GateCell,
    Readable, View,
};
use crate::effects::{number, Effect};
use crate::sequence::steps::{Advance, Lever, Step};
use crate::wait_strategies::{woken, WakeupNotifier};
use crossbeam_utils::CachePadded;
use std::sync::atomic::AtomicI64;
use std::sync::Arc;
use vstd::prelude::*;

verus! {

/// Where a sequence stands before anything was published or read.
pub const INITIAL_SEQUENCE: i64 = -1;

/// A sequence that can be advanced by external actors (e.g. fsync flush markers).
///
/// Defaults to `-1`, as a cursor does, so that a gated stage is blocked until the sequence is
/// advanced. Padded to a cache line to reduce false sharing. A clone shares the cell.
#[derive(Debug)]
pub struct DependentSequence(GateCell);

impl DependentSequence {
    /// The cell that this sequence and its clones share.
    pub closed spec fn cell(&self) -> CachePadded<AtomicI64> {
        self.0.padded()
    }

    /// Makes a sequence that stands at `-1`.
    pub fn new() -> (sequence: Self)
        ensures
            cell_made(sequence.cell(), INITIAL_SEQUENCE),
    {
        Self::with_value(INITIAL_SEQUENCE)
    }

    /// Makes a sequence that stands at the given value.
    pub fn with_value(v: i64) -> (sequence: Self)
        ensures
            cell_made(sequence.cell(), v),
    {
        DependentSequence(GateCell::new(v))
    }

    /// Loads the current value with `Acquire` ordering.
    pub fn get(&self) -> (v: i64)
        ensures
            loaded_acquire(self.cell(), v),
    {
        load_acquire(&self.0)
    }

    /// Stores a new value with `Release` ordering. It may be less than the old one.
    pub fn set(&self, v: i64)
        ensures
            stored_release(self.cell(), v),
        opens_invariants [number(Effect::Store { atomic: padded_atomic(self.cell()), value: v })]
    {
        self.0.store_release(v)
    }

    /// Stores `new` if the value is `current`. Gives the previous value, in an `Ok` exactly where
    /// it is `current`.
    pub fn compare_and_set(&self, current: i64, new: i64) -> (result: Result<i64, i64>)
        ensures
            exchanged(self.cell(), current, new, result),
            match result {
                Ok(previous) => previous == current,
                Err(previous) => previous != current,
            },
        opens_invariants [
            number(Effect::Exchange { atomic: padded_atomic(self.cell()), current, new }),
        ]
    {
        self.0.compare_exchange(current, new)
    }
}

/// An external sequence, to be watched. It cannot be advanced by whoever watches it.
pub struct WatchedSequence {
    view: View,
    sequence: Ghost<Arc<DependentSequence>>,
}

impl WatchedSequence {
    #[verifier::type_invariant]
    spec fn is_of_sequence(self) -> bool {
        self.view.padded() == self.sequence@.cell()
    }

    /// The sequence.
    pub closed spec fn watched(&self) -> Arc<DependentSequence> {
        self.sequence@
    }

    /// Watches the sequence.
    pub fn new(sequence: &Arc<DependentSequence>) -> (watched: Self)
        ensures
            watched.watched() == *sequence,
    {
        WatchedSequence { view: sequence.0.view(), sequence: Ghost(*sequence) }
    }

    /// Loads the current value with `Acquire` ordering.
    pub fn get(&self) -> (v: i64)
        ensures
            loaded_acquire(self.watched().cell(), v),
    {
        proof {
            use_type_invariant(self);
        }
        load_acquire(&self.view)
    }
}

impl Clone for DependentSequence {
    /// A handle on the same cell.
    fn clone(&self) -> (sequence: Self)
        ensures
            sequence.cell() == self.cell(),
    {
        DependentSequence(self.0.share())
    }
}

impl Default for DependentSequence {
    /// Makes a sequence that stands at `-1`.
    fn default() -> (sequence: Self)
        ensures
            cell_made(sequence.cell(), INITIAL_SEQUENCE),
    {
        Self::new()
    }
}

/// A gated sequence that wakes blocked consumers when it is advanced.
///
/// It joins a [`DependentSequence`] with a notifier, so that consumers which are blocked on this
/// gate look again at it.
///
/// A gate that was made with a number has a cell of its own, which it shares with its clones only.
/// So two such gates that have different numbers are independent of each other.
pub struct GatedSequence<N> {
    lever: Lever,
    notifier: N,
    number: Ghost<Option<nat>>,
}

impl<N> GatedSequence<N> {
    /// The cell behind the sequence.
    pub closed spec fn cell(&self) -> CachePadded<AtomicI64> {
        self.lever.cell()
    }

    /// Who is woken when the sequence is advanced.
    pub closed spec fn wakes(&self) -> N {
        self.notifier
    }

    /// The number that it was made with, if any.
    pub closed spec fn number(&self) -> Option<nat> {
        self.number@
    }

    /// Joins a sequence with a notifier.
    pub fn new(inner: DependentSequence, notifier: N) -> (gate: Self)
        ensures
            gate.cell() == inner.cell(),
            gate.wakes() == notifier,
            gate.number() is None,
    {
        GatedSequence { lever: Lever::new(inner), notifier, number: Ghost(None) }
    }

    /// Makes a gate with a number and a cell of its own. It is closed.
    pub fn fresh(number: usize, notifier: N) -> (gate: Self)
        ensures
            cell_made(gate.cell(), INITIAL_SEQUENCE),
            gate.wakes() == notifier,
            gate.number() == Some(number as nat),
    {
        GatedSequence {
            lever: Lever::new(DependentSequence::new()),
            notifier,
            number: Ghost(Some(number as nat)),
        }
    }

    /// Loads the current value with `Acquire` ordering.
    pub fn get(&self) -> (v: i64)
        ensures
            loaded_acquire(self.cell(), v),
    {
        self.lever.get()
    }

    /// A handle on the sequence without the notifier.
    pub fn dependent(&self) -> (sequence: DependentSequence)
        ensures
            sequence.cell() == self.cell(),
    {
        self.lever.dependent()
    }
}

/// Stores the value and then wakes, each once.
pub fn set_and_wake<N: WakeupNotifier>(advance: &mut Advance<'_, N>, v: i64)
    ensures
        stored_release(old(advance).cell(), v),
        woken(&old(advance).wakes()),
        final(advance).did(old(advance), seq![Step::Stored { value: v }, Step::Woken]),
    opens_invariants old(advance).wakes().effects().insert(
        number(Effect::Store { atomic: padded_atomic(old(advance).cell()), value: v }),
    )
{
    advance.store(v);
    advance.wake();
    assert(advance.steps() == old(advance).steps() + seq![Step::Stored { value: v }, Step::Woken]);
}

/// What an exchange leads to: a wake after it if it succeeded, and nothing else.
pub open spec fn exchange_steps(current: i64, new: i64, result: Result<i64, i64>) -> Seq<Step> {
    if result is Ok {
        seq![Step::Exchanged { current, new, result }, Step::Woken]
    } else {
        seq![Step::Exchanged { current, new, result }]
    }
}

/// Tries the exchange, and wakes after it if it succeeded.
pub fn exchange_and_wake<N: WakeupNotifier>(
    advance: &mut Advance<'_, N>,
    current: i64,
    new: i64,
) -> (result: Result<i64, i64>)
    ensures
        exchanged(old(advance).cell(), current, new, result),
        match result {
            Ok(previous) => previous == current && woken(&old(advance).wakes()),
            Err(previous) => previous != current,
        },
        final(advance).did(old(advance), exchange_steps(current, new, result)),
    opens_invariants old(advance).wakes().effects().insert(
        number(Effect::Exchange { atomic: padded_atomic(old(advance).cell()), current, new }),
    )
{
    let result = advance.exchange(current, new);
    if let Ok(_) = result {
        advance.wake();
    }
    assert(advance.steps() == old(advance).steps() + exchange_steps(current, new, result));
    result
}

impl<N: WakeupNotifier> GatedSequence<N> {
    /// Stores a new value with `Release` ordering and wakes any blocked consumers, as
    /// [`set_and_wake`] does.
    pub fn set(&self, v: i64)
        ensures
            stored_release(self.cell(), v),
            woken(&self.wakes()),
            exists|advance: &mut Advance<'_, N>|
                {
                    &&& advance.cell() == self.cell()
                    &&& advance.wakes() == self.wakes()
                    &&& advance.steps() == Seq::<Step>::empty()
                    &&& #[trigger] call_ensures(set_and_wake::<N>, (advance, v), ())
                },
        opens_invariants self.wakes().effects().insert(
            number(Effect::Store { atomic: padded_atomic(self.cell()), value: v }),
        )
    {
        let mut advance = self.lever.advance(&self.notifier);
        set_and_wake(&mut advance, v);
    }

    /// Stores `new` if the value is `current`, and wakes consumers only in that case, as
    /// [`exchange_and_wake`] does. Gives the previous value, in an `Ok` exactly where it is
    /// `current`.
    pub fn compare_and_set(&self, current: i64, new: i64) -> (result: Result<i64, i64>)
        ensures
            exchanged(self.cell(), current, new, result),
            match result {
                Ok(previous) => previous == current && woken(&self.wakes()),
                Err(previous) => previous != current,
            },
            exists|advance: &mut Advance<'_, N>|
                {
                    &&& advance.cell() == self.cell()
                    &&& advance.wakes() == self.wakes()
                    &&& advance.steps() == Seq::<Step>::empty()
                    &&& #[trigger] call_ensures(
                        exchange_and_wake::<N>,
                        (advance, current, new),
                        result,
                    )
                },
        opens_invariants self.wakes().effects().insert(
            number(Effect::Exchange { atomic: padded_atomic(self.cell()), current, new }),
        )
    {
        let mut advance = self.lever.advance(&self.notifier);
        exchange_and_wake(&mut advance, current, new)
    }
}

impl<N: Clone> Clone for GatedSequence<N> {
    /// A gate on the same cell, with a clone of the notifier.
    fn clone(&self) -> (gate: Self)
        ensures
            gate.cell() == self.cell(),
            cloned(self.wakes(), gate.wakes()),
            gate.number() == self.number(),
    {
        GatedSequence {
            lever: Lever::new(self.lever.dependent()),
            notifier: self.notifier.clone(),
            number: Ghost(self.number@),
        }
    }
}

} // verus!
