use crate::field::Fe;
use vstd::prelude::*;

verus! {

/// Why an assignment is rejected: which constraint fails, and where.
#[derive(Clone, Copy, Debug, PartialEq, Eq)]
pub enum VerifyFailure {
    /// A polynomial constraint does not vanish; `value` is the cell that the constraint reads.
    ConstraintNotSatisfied { gate: usize, constraint: usize, region: usize, offset: usize, value: Fe },
    /// An expression that must be a table entry is not one.
    Lookup { lookup_index: usize, region: usize, offset: usize },
    /// A cell pinned to the constant zero holds something else.
    ConstantMismatch { region: usize, offset: usize },
    /// A cell tied to row `row` of the public inputs holds something else.
    InstanceMismatch { row: usize },
}

} // verus!
