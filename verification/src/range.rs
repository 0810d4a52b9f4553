//! A validated half-open interval of column indices.

use vstd::prelude::*;
use crate::error::PartitionError;

verus! {

/// The half-open interval `[lower, upper)` over global column indices.
/// `Range::new` only builds well-formed (non-empty) intervals.
#[derive(Clone, Copy, Debug, PartialEq, Eq, Structural)]
pub struct Range {
    pub lower: usize,
    pub upper: usize,
}

impl Range {
    /// The interval is well-formed: non-empty, with `lower < upper`.
    pub open spec fn wf(self) -> bool {
        self.lower < self.upper
    }

    /// Number of columns the interval covers.
    pub open spec fn spec_len(self) -> int {
        self.upper - self.lower
    }

    pub open spec fn spec_contains(self, global_index: int) -> bool {
        self.lower <= global_index < self.upper
    }

    pub open spec fn spec_local_to_global(self, local_index: int) -> Option<usize> {
        if self.lower + local_index < self.upper {
            Some((self.lower + local_index) as usize)
        } else {
            None
        }
    }

    pub open spec fn spec_global_to_local(self, global_index: int) -> Option<usize> {
        if self.spec_contains(global_index) {
            Some((global_index - self.lower) as usize)
        } else {
            None
        }
    }

    /// Validated construction: succeeds exactly when `lower < upper`.
    pub fn new(lower: usize, upper: usize) -> (r: Result<Range, PartitionError>)
        ensures
            lower < upper <==> (r matches Ok(rg) && rg == (Range { lower, upper })),
            lower >= upper <==> (r matches Err(e) && e == (PartitionError::InvalidRange {
                lower,
                upper,
            })),
    {
        if lower >= upper {
            Err(PartitionError::InvalidRange { lower, upper })
        } else {
            Ok(Range { lower, upper })
        }
    }

    pub fn len(&self) -> (r: usize)
        requires
            self.wf(),
        ensures
            r == self.spec_len(),
    {
        self.upper - self.lower
    }

    /// Whether the global column index falls inside the interval.
    pub fn contains(&self, global_index: usize) -> (r: bool)
        ensures
            r == self.spec_contains(global_index as int),
    {
        self.lower <= global_index && global_index < self.upper
    }

    /// Converts a group-local index to the global column index; no value
    /// outside the valid local domain.
    pub fn local_to_global(&self, local_index: usize) -> (r: Option<usize>)
        ensures
            r == self.spec_local_to_global(local_index as int),
    {
        if self.lower < self.upper && local_index < self.upper - self.lower {
            Some(self.lower + local_index)
        } else {
            None
        }
    }

    /// Converts a global column index to the group-local index; no value
    /// outside the interval.
    pub fn global_to_local(&self, global_index: usize) -> (r: Option<usize>)
        ensures
            r == self.spec_global_to_local(global_index as int),
    {
        if self.contains(global_index) {
            Some(global_index - self.lower)
        } else {
            None
        }
    }
}

/// Local-to-global conversion inverts back: every valid local index survives
/// the round trip through the global index space.
pub proof fn lemma_local_global_round_trip(rg: Range, local_index: usize)
    requires
        local_index < rg.spec_len(),
    ensures
        rg.spec_local_to_global(local_index as int) matches Some(g)
            && rg.spec_global_to_local(g as int) == Some(local_index),
{
}

} // verus!

