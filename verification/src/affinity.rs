//! Pinning threads to CPU cores.

pub mod attempts;

use crate::affinity::attempts::{Attempt, Attempts};
use crate::effects::{number, Effect};
use vstd::prelude::*;

verus! {

/// `core_affinity::get_core_ids`: the numbers of the cores on which the thread may run, or `None`
/// if the operating system does not tell. What it gives depends on the machine.
#[verifier::external_body]
fn list_core_ids() -> (ids: Option<Vec<usize>>) {
    core_affinity::get_core_ids().map(|ids| ids.into_iter().map(|core| core.id).collect())
}

/// The operating system listed the core.
pub closed spec fn listed(id: usize) -> bool {
    exists|ids: Option<Vec<usize>>| #[trigger]
        call_ensures(list_core_ids, (), ids) && in_list(ids, id)
}

/// `core_affinity::set_for_current`: tries to pin the thread to the core, and tells whether that
/// succeeded, which depends on the machine. The function may panic for a number that no core can
/// have; a core that was listed has a number that it takes.
#[verifier::external_body]
fn pin_current_thread(id: usize) -> (pinned: bool)
    requires
        listed(id),
    opens_invariants [number(Effect::Pin { core: Some(id) })]
{
    core_affinity::set_for_current(core_affinity::CoreId { id })
}

/// An attempt to pin the thread to the core ended so.
pub closed spec fn pin_tried(id: usize, pinned: bool) -> bool {
    call_ensures(pin_current_thread, (id,), pinned)
}

/// The number of a core that the operating system has listed.
#[derive(Debug, Clone, Copy)]
pub struct CoreId {
    id: usize,
}

impl CoreId {
    #[verifier::type_invariant]
    spec fn is_listed(self) -> bool {
        listed(self.id)
    }

    /// The number.
    pub closed spec fn number(self) -> usize {
        self.id
    }

    /// The number.
    pub fn id(&self) -> (id: usize)
        ensures
            id == self.number(),
            listed(id),
    {
        proof {
            use_type_invariant(self);
        }
        self.id
    }
}

/// Whether the core is in the list. Where there is no list, none is.
pub open spec fn in_list(ids: Option<Vec<usize>>, id: usize) -> bool {
    ids matches Some(ids) && ids@.contains(id)
}

/// Looks for the core among those that were listed.
pub fn has_core(ids: &Option<Vec<usize>>, id: usize) -> (has: bool)
    ensures
        has == in_list(*ids, id),
{
    match ids {
        None => false,
        Some(list) => {
            let mut i: usize = 0;
            while i < list.len()
                invariant
                    *ids == Some(*list),
                    i <= list.len(),
                    forall|k: int| 0 <= k < i ==> list@[k] != id,
                decreases list.len() - i,
            {
                if list[i] == id {
                    assert(list@[i as int] == id);
                    return true;
                }
                i += 1;
            }
            false
        },
    }
}

/// The core with the number, if the operating system lists it.
pub fn cpu_core(id: usize) -> (core: Option<CoreId>)
    ensures
        core matches Some(core) ==> core.number() == id && listed(id),
        core is None ==> unlisted(id),
{
    let ids = list_core_ids();
    if has_core(&ids, id) {
        Some(CoreId { id })
    } else {
        None
    }
}

/// The operating system was asked and did not list the core.
pub closed spec fn unlisted(id: usize) -> bool {
    exists|ids: Option<Vec<usize>>| #[trigger]
        call_ensures(list_core_ids, (), ids) && !in_list(ids, id)
}

/// What became of a thread's wish to be pinned.
#[derive(Debug, Clone, Copy)]
pub enum Pinning {
    /// No core was given.
    Undefined,
    /// The thread runs on the core.
    Pinned,
    /// The thread could not be pinned to the core.
    Failed {
        /// The core.
        core: CoreId,
    },
}

/// What an attempt to pin the thread to the core gave.
pub fn pinning_result(core: CoreId, pinned: bool) -> (pinning: Pinning)
    ensures
        pinning == if pinned {
            Pinning::Pinned
        } else {
            Pinning::Failed { core }
        },
    opens_invariants none
{
    if pinned {
        Pinning::Pinned
    } else {
        Pinning::Failed { core }
    }
}

/// The number of the core, if one is given.
pub open spec fn number_of(core_affinity: Option<CoreId>) -> Option<usize> {
    match core_affinity {
        Some(core) => Some(core.number()),
        None => None,
    }
}

/// Makes one attempt to pin the thread to the core, if one is given, and none to pin it to another.
pub fn pin_by(attempts: &mut Attempts, core_affinity: Option<CoreId>) -> (pinning: Pinning)
    ensures
        match core_affinity {
            None => pinning is Undefined && final(attempts).made() == old(attempts).made(),
            Some(core) => {
                &&& match pinning {
                    Pinning::Undefined => false,
                    Pinning::Pinned => true,
                    Pinning::Failed { core: failed } => failed == core,
                }
                &&& pin_tried(core.number(), pinning is Pinned)
                &&& final(attempts).made() == old(attempts).made().push(
                    Attempt { core: core.number(), pinned: pinning is Pinned },
                )
            },
        },
    opens_invariants [number(Effect::Pin { core: number_of(core_affinity) })]
{
    match core_affinity {
        None => Pinning::Undefined,
        Some(core) => {
            let pinned = attempts.pin(core);
            pinning_result(core, pinned)
        },
    }
}

/// Pins the thread to the core, if one is given, as [`pin_by`] does.
pub fn set_affinity_if_defined(core_affinity: Option<CoreId>) -> (pinning: Pinning)
    ensures
        match core_affinity {
            None => pinning is Undefined,
            Some(core) => match pinning {
                Pinning::Undefined => false,
                Pinning::Pinned => pin_tried(core.number(), true),
                Pinning::Failed { core: failed } => failed == core && pin_tried(
                    core.number(),
                    false,
                ),
            },
        },
        exists|attempts: &mut Attempts|
            attempts.made() == Seq::<Attempt>::empty() && #[trigger] call_ensures(
                pin_by,
                (attempts, core_affinity),
                pinning,
            ),
    opens_invariants [number(Effect::Pin { core: number_of(core_affinity) })]
{
    let mut attempts = Attempts::new();
    pin_by(&mut attempts, core_affinity)
}

} // verus!
