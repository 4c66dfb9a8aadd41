//! Why an operation on the ledger was refused.

use vstd::prelude::*;

verus! {

/// Every refusal is final for the call that met it and leaves the ledger as it was.
#[derive(Clone, Copy, PartialEq, Eq, Structural, Debug)]
pub enum LendingError {
    /// The platform configuration was already set.
    AlreadyInitialized,
    /// The platform configuration has not been set yet.
    NotInitialized,
    /// The configuration admits a principal of zero or less, a principal whose
    /// repayment would not fit the amount type, or a fee above the whole.
    InvalidConfig,
    /// The requested principal lies outside the configured bounds.
    RangeViolation,
    /// The interest rate lies outside 5% to 50%.
    InvalidInterestRate,
    /// The duration lies outside 30 to 365 days.
    InvalidDuration,
    /// Every loan identifier has been given out.
    RegistryFull,
    /// No loan has the given identifier.
    NotFound,
    /// The loan has been repaid.
    LoanInactive,
    /// The offered contribution is zero or less.
    InvalidAmount,
    /// The loan has reached its target and takes no further contribution.
    LoanFullyFunded,
    /// The clock reading cannot be recorded as the time of funding.
    InvalidTimestamp,
    /// The party offering repayment is not the borrower of the loan.
    WrongBorrower,
    /// The loan has not reached its target yet.
    LoanNotFunded,
}

} // verus!
