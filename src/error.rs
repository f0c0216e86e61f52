//! The ways an operation on dues can fail.
use vstd::prelude::*;

verus! {

/// Why an operation on dues failed.
#[derive(Clone, Copy, Debug, PartialEq, Eq, Structural)]
pub enum DuesError {
    /// The referenced member, membership or due is absent.
    NotFound,
    /// A date could not be read, or an argument is out of range.
    InvalidInput,
    /// The period that an operation would bill already has a due.
    DuplicatePeriod,
    /// The underlying store failed.
    StoreFailure,
}

impl DuesError {
    /// A short message for the user.
    pub fn message(&self) -> (r: &'static str) {
        match self {
            DuesError::NotFound => "not found",
            DuesError::InvalidInput => "invalid input",
            DuesError::DuplicatePeriod => "a due already exists for this period",
            DuesError::StoreFailure => "store failure",
        }
    }
}

} // verus!
