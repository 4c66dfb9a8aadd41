//! The keys under which the platform's state is kept in a key-value store.

use vstd::prelude::*;

verus! {

/// The two tiers of the store: one small and short-lived for the
/// configuration, one long-lived for the records of the loans.
#[derive(Clone, Copy, PartialEq, Eq, Structural, Debug)]
pub enum StorageScope {
    Config,
    Record,
}

/// Everything the platform keeps, each under a key of its own.
#[derive(Clone, Copy, PartialEq, Eq, Structural, Debug)]
pub enum DataKey {
    /// The number of loans filed.
    LoanCounter,
    /// The record of the loan with this identifier.
    Loan(u32),
    /// The contribution ledger of the loan with this identifier.
    LoanContributions(u32),
    /// The asset that all amounts are counted in.
    Token,
    MinLoanAmount,
    MaxLoanAmount,
    /// The platform fee, in basis points.
    PlatformFee,
}

impl DataKey {
    /// The tier that the key belongs to: what is kept per loan is a record,
    /// all else is configuration.
    pub open spec fn scope_of(self) -> StorageScope {
        match self {
            DataKey::Loan(_) | DataKey::LoanContributions(_) => StorageScope::Record,
            _ => StorageScope::Config,
        }
    }

    /// The key as a pair of numbers: which kind of key it is, counted from
    /// zero in the order of declaration, and the loan it belongs to, or zero.
    pub open spec fn code(self) -> (u32, u32) {
        match self {
            DataKey::LoanCounter => (0u32, 0u32),
            DataKey::Loan(loan_id) => (1u32, loan_id),
            DataKey::LoanContributions(loan_id) => (2u32, loan_id),
            DataKey::Token => (3u32, 0u32),
            DataKey::MinLoanAmount => (4u32, 0u32),
            DataKey::MaxLoanAmount => (5u32, 0u32),
            DataKey::PlatformFee => (6u32, 0u32),
        }
    }

    /// The tier that the key belongs to.
    pub fn scope(&self) -> (scope: StorageScope)
        ensures
            scope == self.scope_of(),
    {
        match self {
            DataKey::Loan(_) | DataKey::LoanContributions(_) => StorageScope::Record,
            _ => StorageScope::Config,
        }
    }

    /// The key as a pair of numbers, fit to be handed to a store.
    pub fn encode(&self) -> (code: (u32, u32))
        ensures
            code == self.code(),
    {
        match self {
            DataKey::LoanCounter => (0, 0),
            DataKey::Loan(loan_id) => (1, *loan_id),
            DataKey::LoanContributions(loan_id) => (2, *loan_id),
            DataKey::Token => (3, 0),
            DataKey::MinLoanAmount => (4, 0),
            DataKey::MaxLoanAmount => (5, 0),
            DataKey::PlatformFee => (6, 0),
        }
    }
}

/// No two keys share a code: what is stored under one key is never read or
/// overwritten under another.
pub proof fn lemma_codes_are_distinct(a: DataKey, b: DataKey)
    ensures
        a.code() == b.code() <==> a == b,
{
}

} // verus!
