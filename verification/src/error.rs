//! Failure kinds of the solver.

use vstd::prelude::*;

verus! {

/// Why a solve attempt failed.
#[derive(Clone, Copy, Debug, PartialEq, Eq, Structural)]
pub enum ErrorReason {
    /// The augmented matrix does not have `n` rows and `n + 1` columns.
    IncorrectSize,
    /// A zero pivot turned up, and the algorithm does no row reordering.
    UnableToCalculate,
}

impl ErrorReason {
    /// A fixed human-readable message for each failure kind.
    pub fn to_string(&self) -> (s: &'static str)
        ensures
            *self is IncorrectSize ==> s@ == "Incorrect matrix size: it must have n rows and n + 1 columns!"@,
            *self is UnableToCalculate ==> s@ == "This matrix has no solutions!"@,
    {
        match self {
            ErrorReason::IncorrectSize => "Incorrect matrix size: it must have n rows and n + 1 columns!",
            ErrorReason::UnableToCalculate => "This matrix has no solutions!",
        }
    }
}

/// A failed solve attempt, tagged with its reason.
#[derive(Clone, Copy, Debug)]
pub struct CalculationError {
    reason: ErrorReason,
}

impl CalculationError {
    /// The reason this error carries.
    pub closed spec fn spec_reason(self) -> ErrorReason {
        self.reason
    }

    pub fn new(error_reason: ErrorReason) -> (e: Self)
        ensures
            e.spec_reason() == error_reason,
    {
        Self { reason: error_reason }
    }

    /// Reads the reason back out.
    pub fn reason(&self) -> (r: ErrorReason)
        ensures
            r == self.spec_reason(),
    {
        self.reason
    }
}

} // verus!
