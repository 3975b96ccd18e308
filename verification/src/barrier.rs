//! Barriers, which say how far a stage may read.

use crate::Sequence;
use vstd::prelude::*;

verus! {

/// Something that tells the highest sequence which is available to those that come after it.
pub trait Barrier {
    /// Whether asking the barrier for what is available at or after `lower_bound` can give
    /// `sequence`. Of the library's barriers this holds of what follows from loads that were made
    /// of the cells that the barrier watches. A barrier that promises nothing may leave it out.
    open spec fn observes(&self, lower_bound: Sequence, sequence: Sequence) -> bool {
        true
    }

    /// The highest available sequence. It may be less than `lower_bound`, which is the sequence
    /// that the caller is interested in.
    fn get_after(&self, lower_bound: Sequence) -> (sequence: Sequence)
        ensures
            self.observes(lower_bound, sequence),
    ;
}

} // verus!
