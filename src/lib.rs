//! An escrow ledger that pools contributions toward a beneficiary's target,
//! then releases the pooled funds (minus a platform fee) or refunds them.
//!
//! - `amount`: 512-bit token amounts, with arithmetic done by
//!   `casper_types::U512`.
//! - `principal`: the 32-byte identifiers of acting parties.
//! - `errors`: why an operation fails, and the fixed limits.
//! - `utils`: input validation and the platform fee.
//! - `remittance`: one campaign's record and its lifecycle transitions.
//! - `entries`: the contribution ledger keyed by (remittance, contributor).
//! - `ledger`: the whole escrow, its invariant, and the operations on it.
//! - `laws`: properties that relate the operations, proved.
//!
//! No funds move inside the library: an operation that pays out returns
//! the amounts to transfer, and a contribution is recorded once its funds
//! have reached escrow.

pub mod amount;
pub mod entries;
pub mod errors;
pub mod laws;
pub mod ledger;
pub mod principal;
pub mod remittance;
pub mod utils;
