//! The shared 64-bit cells that the library communicates through.
//!
//! Other threads may write to a cell at any moment, so no value of it can be predicted. What can
//! be said is which operations were made on which cell and what they returned. The predicates
//! below say just that: each holds of a cell and of values for which the named operation of
//! `std::sync::atomic` was made and gave the named result.
//!
//! What can be done with a cell is a matter of its type. A bare padded cell, such as a shutdown
//! marker, and a [`View`] can be read and nothing more. An [`OwnCell`] can be written to by its
//! owner, and a [`GateCell`] by whoever names what is written.

use crate::effects::{number, Effect};
use crossbeam_utils::CachePadded;
use std::sync::atomic::{AtomicBool, AtomicI64, Ordering};
use std::sync::Arc;
use vstd::prelude::*;

verus! {

/// `crossbeam_utils::CachePadded`: a value that is aligned to a cache line.
#[verifier::external_type_specification]
#[verifier::external_body]
#[verifier::reject_recursive_types(T)]
pub struct ExCachePadded<T>(CachePadded<T>);

/// The atomic integer that a padded cell holds.
pub uninterp spec fn padded_atomic(cell: CachePadded<AtomicI64>) -> AtomicI64;

/// `crossbeam_utils::CachePadded::new`: the padded cell holds the atomic that it was made of.
#[verifier::external_body]
pub(crate) fn pad(atomic: AtomicI64) -> (cell: CachePadded<AtomicI64>)
    ensures
        padded_atomic(cell) == atomic,
{
    CachePadded::new(atomic)
}

/// `<crossbeam_utils::CachePadded as Deref>::deref`: a reference to the atomic that the cell
/// holds.
#[verifier::external_body]
fn unpad(cell: &CachePadded<AtomicI64>) -> (atomic: &AtomicI64)
    ensures
        *atomic == padded_atomic(*cell),
    opens_invariants none
    no_unwind
{
    cell
}

/// `std::sync::atomic::AtomicI64::store` with `Release` ordering, for which the function does not
/// panic. Its effect on the shared cell is left unsaid: another thread may overwrite the value at
/// once.
#[verifier::external_body]
fn atomic_store_release(atomic: &AtomicI64, value: i64)
    opens_invariants none
    no_unwind
{
    atomic.store(value, Ordering::Release)
}

/// `std::sync::atomic::AtomicI64::compare_exchange` with `AcqRel` ordering on success and
/// `Acquire` on failure: it gives the previous value, in an `Ok` exactly where that value is the
/// expected one. That the new value is then in the cell is left unsaid: another thread may
/// overwrite it at once.
#[verifier::external_body]
fn atomic_compare_exchange(atomic: &AtomicI64, current: i64, new: i64) -> (result: Result<i64, i64>)
    ensures
        match result {
            Ok(previous) => previous == current,
            Err(previous) => previous != current,
        },
    opens_invariants [number(Effect::Exchange { atomic: *atomic, current, new })]
{
    atomic.compare_exchange(current, new, Ordering::AcqRel, Ordering::Acquire)
}

/// `std::sync::atomic::fence` with `Acquire` ordering, for which the function does not panic. Its
/// effect, on the order in which threads see each other's writes, is left unsaid.
#[verifier::external_body]
fn atomic_fence_acquire() {
    std::sync::atomic::fence(Ordering::Acquire)
}

/// A cell that was made with the given value in it.
pub open spec fn cell_made(cell: CachePadded<AtomicI64>, value: i64) -> bool {
    call_ensures(AtomicI64::new, (value,), padded_atomic(cell))
}

/// A load of the cell with `Relaxed` ordering gave the value.
pub open spec fn loaded_relaxed(cell: CachePadded<AtomicI64>, value: i64) -> bool {
    call_ensures(AtomicI64::load, (&padded_atomic(cell), Ordering::Relaxed), value)
}

/// A load of the cell with `Acquire` ordering gave the value.
pub open spec fn loaded_acquire(cell: CachePadded<AtomicI64>, value: i64) -> bool {
    call_ensures(AtomicI64::load, (&padded_atomic(cell), Ordering::Acquire), value)
}

/// A load of the cell, with some ordering, gave the value.
pub open spec fn loaded(cell: CachePadded<AtomicI64>, value: i64) -> bool {
    exists|order: Ordering|
        call_ensures(AtomicI64::load, (&padded_atomic(cell), order), value)
}

/// The value was stored in the cell with `Release` ordering.
pub closed spec fn stored_release(cell: CachePadded<AtomicI64>, value: i64) -> bool {
    call_ensures(atomic_store_release, (&padded_atomic(cell), value), ())
}

/// An exchange of `current` for `new` was tried on the cell and gave the result.
pub closed spec fn exchanged(
    cell: CachePadded<AtomicI64>,
    current: i64,
    new: i64,
    result: Result<i64, i64>,
) -> bool {
    call_ensures(atomic_compare_exchange, (&padded_atomic(cell), current, new), result)
}

/// A fence with `Acquire` ordering was issued.
pub closed spec fn fenced_acquire() -> bool {
    call_ensures(atomic_fence_acquire, (), ())
}

/// A cell that can be read.
pub trait Readable {
    /// The padded cell.
    spec fn padded(&self) -> CachePadded<AtomicI64>;

    /// Loads the cell with an ordering that a load can have.
    fn load(&self, order: Ordering) -> (value: i64)
        requires
            order == Ordering::Relaxed || order == Ordering::Acquire || order == Ordering::SeqCst,
        ensures
            call_ensures(AtomicI64::load, (&padded_atomic(self.padded()), order), value),
    ;
}

/// A cell of somebody else, such as a shutdown marker, can be read and nothing more.
impl Readable for CachePadded<AtomicI64> {
    open spec fn padded(&self) -> CachePadded<AtomicI64> {
        *self
    }

    fn load(&self, order: Ordering) -> (value: i64) {
        unpad(self).load(order)
    }
}

/// A cell that its owner writes to.
#[derive(Debug)]
pub struct OwnCell {
    padded: Arc<CachePadded<AtomicI64>>,
}

impl Readable for OwnCell {
    closed spec fn padded(&self) -> CachePadded<AtomicI64> {
        *self.padded
    }

    fn load(&self, order: Ordering) -> (value: i64) {
        unpad(&self.padded).load(order)
    }
}

/// A cell of somebody else, to be watched. It can be read and nothing more.
#[derive(Debug)]
pub struct View {
    padded: Arc<CachePadded<AtomicI64>>,
}

impl Readable for View {
    closed spec fn padded(&self) -> CachePadded<AtomicI64> {
        *self.padded
    }

    fn load(&self, order: Ordering) -> (value: i64) {
        unpad(&self.padded).load(order)
    }
}

impl OwnCell {
    /// A view of the cell.
    pub fn view(&self) -> (view: View)
        ensures
            view.padded() == self.padded(),
    {
        View { padded: Arc::clone(&self.padded) }
    }

    /// A handle on the cell for somebody who names what is written.
    pub fn gate(&self) -> (cell: GateCell)
        ensures
            cell.padded() == self.padded(),
    {
        GateCell { padded: Arc::clone(&self.padded) }
    }

    /// Loads the cell with an ordering that a load can have.
    pub fn load(&self, order: Ordering) -> (value: i64)
        requires
            order == Ordering::Relaxed || order == Ordering::Acquire || order == Ordering::SeqCst,
        ensures
            call_ensures(AtomicI64::load, (&padded_atomic(self.padded()), order), value),
    {
        unpad(&self.padded).load(order)
    }
}

/// A cell to be written to by whoever names what is written.
#[derive(Debug)]
pub struct GateCell {
    padded: Arc<CachePadded<AtomicI64>>,
}

impl Readable for GateCell {
    closed spec fn padded(&self) -> CachePadded<AtomicI64> {
        *self.padded
    }

    fn load(&self, order: Ordering) -> (value: i64) {
        unpad(&self.padded).load(order)
    }
}

impl GateCell {
    /// Makes a cell with the value in it.
    pub fn new(value: i64) -> (cell: Self)
        ensures
            cell_made(cell.padded(), value),
    {
        GateCell { padded: Arc::new(pad(AtomicI64::new(value))) }
    }

    /// A handle on the same cell.
    pub fn share(&self) -> (cell: Self)
        ensures
            cell.padded() == self.padded(),
        opens_invariants none
    {
        GateCell { padded: Arc::clone(&self.padded) }
    }

    /// A view of the cell.
    pub fn view(&self) -> (view: View)
        ensures
            view.padded() == self.padded(),
    {
        View { padded: Arc::clone(&self.padded) }
    }

    /// Stores the value in the cell with `Release` ordering.
    pub fn store_release(&self, value: i64)
        ensures
            stored_release(self.padded(), value),
        opens_invariants [number(Effect::Store { atomic: padded_atomic(self.padded()), value })]
        no_unwind
    {
        atomic_store_release(unpad(&self.padded), value);
    }

    /// Puts `new` in the cell if it holds `current`, and gives back what it held before.
    pub fn compare_exchange(&self, current: i64, new: i64) -> (result: Result<i64, i64>)
        ensures
            exchanged(self.padded(), current, new, result),
            match result {
                Ok(previous) => previous == current,
                Err(previous) => previous != current,
            },
        opens_invariants [
            number(Effect::Exchange { atomic: padded_atomic(self.padded()), current, new }),
        ]
    {
        atomic_compare_exchange(unpad(&self.padded), current, new)
    }
}

/// Makes a padded cell with the value in it, for its owner to write to.
pub fn new_cell(value: i64) -> (cell: OwnCell)
    ensures
        cell_made(cell.padded(), value),
{
    OwnCell { padded: Arc::new(pad(AtomicI64::new(value))) }
}

/// Makes a padded cell with the value in it, for others to write to.
pub fn new_marker(value: i64) -> (cell: CachePadded<AtomicI64>)
    ensures
        cell_made(cell, value),
{
    pad(AtomicI64::new(value))
}

/// Loads the cell with `Relaxed` ordering.
pub fn load_relaxed<C: Readable>(cell: &C) -> (value: i64)
    ensures
        loaded_relaxed(cell.padded(), value),
{
    cell.load(Ordering::Relaxed)
}

/// Loads the cell with `Acquire` ordering.
pub fn load_acquire<C: Readable>(cell: &C) -> (value: i64)
    ensures
        loaded_acquire(cell.padded(), value),
{
    cell.load(Ordering::Acquire)
}

/// Stores the value in the cell with `Release` ordering.
pub fn store_release(cell: &OwnCell, value: i64)
    ensures
        stored_release(cell.padded(), value),
    opens_invariants none
    no_unwind
{
    atomic_store_release(unpad(&cell.padded), value);
}

/// Puts `new` in the cell if it holds `current`, and gives back what it held before.
pub fn compare_exchange(cell: &OwnCell, current: i64, new: i64) -> (result: Result<i64, i64>)
    ensures
        exchanged(cell.padded(), current, new, result),
        match result {
            Ok(previous) => previous == current,
            Err(previous) => previous != current,
        },
    opens_invariants [
        number(Effect::Exchange { atomic: padded_atomic(cell.padded()), current, new }),
    ]
{
    atomic_compare_exchange(unpad(&cell.padded), current, new)
}

/// Issues a fence with `Acquire` ordering.
pub fn fence_acquire()
    ensures
        fenced_acquire(),
{
    atomic_fence_acquire();
}

/// A flag that was made with the given value in it.
pub open spec fn flag_made(flag: AtomicBool, value: bool) -> bool {
    call_ensures(AtomicBool::new, (value,), flag)
}

/// A load of the flag with `Relaxed` ordering gave the value.
pub open spec fn flag_read(flag: AtomicBool, value: bool) -> bool {
    call_ensures(AtomicBool::load, (&flag, Ordering::Relaxed), value)
}

/// The flag was set with `Release` ordering.
pub open spec fn flag_raised(flag: AtomicBool) -> bool {
    call_ensures(AtomicBool::store, (&flag, true, Ordering::Release), ())
}

/// The flag was cleared with `AcqRel` ordering, and held `raised` until then.
pub open spec fn flag_taken(flag: AtomicBool, raised: bool) -> bool {
    call_ensures(AtomicBool::swap, (&flag, false, Ordering::AcqRel), raised)
}

/// Loads the flag with `Relaxed` ordering.
pub fn read_flag(flag: &AtomicBool) -> (value: bool)
    ensures
        flag_read(*flag, value),
{
    flag.load(Ordering::Relaxed)
}

/// Sets the flag with `Release` ordering.
pub fn raise_flag(flag: &AtomicBool)
    ensures
        flag_raised(*flag),
{
    flag.store(true, Ordering::Release)
}

/// Clears the flag with `AcqRel` ordering and gives what it held.
pub fn take_flag(flag: &AtomicBool) -> (raised: bool)
    ensures
        flag_taken(*flag, raised),
{
    flag.swap(false, Ordering::AcqRel)
}

} // verus!
