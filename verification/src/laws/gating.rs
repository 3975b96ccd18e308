//! Laws of gates: where a gate stands after it was advanced, and who was woken.

use crate::sequence::steps::{Advance, Step};
use crate::sequence::{exchange_and_wake, set_and_wake, GatedSequence};
use crate::wait_strategies::WakeupNotifier;
use vstd::prelude::*;

verus! {

/// The value of a cell after the steps, if nobody else writes to it.
pub open spec fn value_after(value: i64, steps: Seq<Step>) -> i64
    decreases steps.len(),
{
    if steps.len() == 0 {
        value
    } else {
        match steps.last() {
            Step::Stored { value: stored } => stored,
            Step::Exchanged { new, result: Ok(_), .. } => new,
            _ => value_after(value, steps.drop_last()),
        }
    }
}

/// The steps were made on a cell that nobody else writes to: every exchange gave what the cell held,
/// and failed exactly where that was not what it expected.
pub open spec fn undisturbed(value: i64, steps: Seq<Step>) -> bool {
    forall|i: int|
        0 <= i < steps.len() ==> (#[trigger] steps[i] matches Step::Exchanged {
            current,
            result,
            ..
        } ==> {
            let held = value_after(value, steps.take(i));
            result == if held == current {
                Ok::<i64, i64>(held)
            } else {
                Err::<i64, i64>(held)
            }
        })
}

/// How often somebody was woken.
pub open spec fn wakes_in(steps: Seq<Step>) -> nat
    decreases steps.len(),
{
    if steps.len() == 0 {
        0
    } else {
        wakes_in(steps.drop_last()) + if steps.last() is Woken {
            1nat
        } else {
            0nat
        }
    }
}

/// A gate that is set stands where it was set to, wherever it stood, and wakes once, when it stands
/// there.
pub proof fn a_gate_stands_where_it_was_set_to<N: WakeupNotifier>(
    advance: &mut Advance<'_, N>,
    value: i64,
    v: i64,
)
    requires
        call_ensures(set_and_wake::<N>, (advance, v), ()),
        advance.steps() == Seq::<Step>::empty(),
    ensures
        value_after(value, final(advance).steps()) == v,
        wakes_in(final(advance).steps()) == 1,
        final(advance).steps().last() is Woken,
        final(advance).cell() == old(advance).cell(),
{
    let stored = seq![Step::Stored { value: v }];
    let steps = seq![Step::Stored { value: v }, Step::Woken];
    assert(Seq::<Step>::empty() + steps == steps);
    assert(steps.drop_last() == stored);
    assert(stored.drop_last() == Seq::<Step>::empty());
    reveal_with_fuel(wakes_in, 3);
    reveal_with_fuel(value_after, 3);
}

/// An exchange that succeeds has found what it expected, leaves the new value there, and wakes once,
/// after that. One that fails has found something else, tells what, leaves it there and wakes
/// nobody.
pub proof fn an_exchange_advances_a_gate_or_leaves_it<N: WakeupNotifier>(
    advance: &mut Advance<'_, N>,
    value: i64,
    current: i64,
    new: i64,
    result: Result<i64, i64>,
)
    requires
        call_ensures(exchange_and_wake::<N>, (advance, current, new), result),
        advance.steps() == Seq::<Step>::empty(),
    ensures
        final(advance).cell() == old(advance).cell(),
        undisturbed(value, final(advance).steps()) ==> match result {
            Ok(previous) => {
                &&& value == current
                &&& previous == value
                &&& value_after(value, final(advance).steps()) == new
                &&& wakes_in(final(advance).steps()) == 1
                &&& final(advance).steps().last() is Woken
            },
            Err(previous) => {
                &&& value != current
                &&& previous == value
                &&& value_after(value, final(advance).steps()) == value
                &&& wakes_in(final(advance).steps()) == 0
            },
        },
{
    let tried = seq![Step::Exchanged { current, new, result }];
    let woken = seq![Step::Exchanged { current, new, result }, Step::Woken];
    let steps = final(advance).steps();
    assert(Seq::<Step>::empty() + tried == tried);
    assert(Seq::<Step>::empty() + woken == woken);
    assert(steps == if result is Ok {
        woken
    } else {
        tried
    });
    assert(woken.drop_last() == tried);
    assert(tried.drop_last() == Seq::<Step>::empty());
    assert(steps[0] == tried[0]);
    assert(steps.take(0) == Seq::<Step>::empty());
    reveal_with_fuel(wakes_in, 3);
    reveal_with_fuel(value_after, 3);
}

/// What is said of an exchange holds of the exchange that a gate makes.
pub proof fn a_gate_exchanges_so<N: WakeupNotifier>(
    gate: &GatedSequence<N>,
    value: i64,
    current: i64,
    new: i64,
    result: Result<i64, i64>,
)
    requires
        call_ensures(GatedSequence::<N>::compare_and_set, (gate, current, new), result),
    ensures
        exists|advance: &mut Advance<'_, N>|
            {
                &&& advance.cell() == gate.cell()
                &&& advance.steps() == Seq::<Step>::empty()
                &&& #[trigger] call_ensures(
                    exchange_and_wake::<N>,
                    (advance, current, new),
                    result,
                )
                &&& undisturbed(value, final(advance).steps()) ==> {
                    &&& result is Ok <==> value == current
                    &&& value_after(value, final(advance).steps()) == if value == current {
                        new
                    } else {
                        value
                    }
                }
            },
{
    let advance = choose|advance: &mut Advance<'_, N>|
        {
            &&& advance.cell() == gate.cell()
            &&& advance.wakes() == gate.wakes()
            &&& advance.steps() == Seq::<Step>::empty()
            &&& #[trigger] call_ensures(exchange_and_wake::<N>, (advance, current, new), result)
        };
    an_exchange_advances_a_gate_or_leaves_it(advance, value, current, new, result);
}

} // verus!
