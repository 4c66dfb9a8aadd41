//! A peer-to-peer micro-lending ledger.
//!
//! Borrowers post loan requests, lenders fund them in parts until the
//! requested principal is reached, and a full repayment is shared out among
//! the lenders in proportion to what each of them contributed.
//!
//! The platform moves no funds and reads no clock itself. Each operation
//! takes the clock reading it needs and returns a receipt that names the
//! amounts to move: what to take into custody and what to pay out of it. The
//! caller moves them, and keeps the new state only if every movement went
//! through.

pub mod contract;
pub mod error;
pub mod fixed_point;
pub mod guarantees;
pub mod ledger;
pub mod loan;
pub mod party;
pub mod storage_key;

pub use contract::{LedgerState, MicrolendingContract, PlatformConfig};
pub use error::LendingError;
pub use ledger::{LenderContribution, Payout};
pub use loan::{FundingReceipt, LoanRequest, LoanState, RepaymentReceipt};
pub use party::{Party, PartyKind};
pub use storage_key::{DataKey, StorageScope};
