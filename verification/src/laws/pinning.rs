//! Laws of pinning: where a thread runs that wished to be pinned.

use crate::affinity::attempts::{Attempt, Attempts};
use crate::affinity::{pin_by, CoreId, Pinning};
use vstd::prelude::*;

verus! {

/// The core that a thread is pinned to after the attempts, if it is pinned to one. A thread that
/// was pinned is pinned elsewhere by each attempt that succeeds.
pub open spec fn pinned_to(at_first: Option<usize>, attempts: Seq<Attempt>) -> Option<usize>
    decreases attempts.len(),
{
    if attempts.len() == 0 {
        at_first
    } else if attempts.last().pinned {
        Some(attempts.last().core)
    } else {
        pinned_to(at_first, attempts.drop_last())
    }
}

/// A thread that is told it was pinned runs on the core that was given for it, and on no other. One
/// that is told otherwise runs where it ran before.
pub proof fn a_thread_runs_where_it_was_pinned_to(
    at_first: Option<usize>,
    attempts: &mut Attempts,
    core_affinity: Option<CoreId>,
    pinning: Pinning,
)
    requires
        call_ensures(pin_by, (attempts, core_affinity), pinning),
    ensures
        pinning is Pinned ==> (core_affinity matches Some(core) && pinned_to(
            at_first,
            final(attempts).made(),
        ) == Some(core.number())),
        pinning !is Pinned ==> pinned_to(at_first, final(attempts).made()) == pinned_to(
            at_first,
            old(attempts).made(),
        ),
        pinning is Undefined <==> core_affinity is None,
{
    let before = attempts.made();
    if let Some(core) = core_affinity {
        let attempt = Attempt { core: core.number(), pinned: pinning is Pinned };
        assert(before.push(attempt).drop_last() == before);
    }
}

} // verus!
