//! Failure conditions of the ledger's operations, and its fixed limits.

use vstd::prelude::*;

verus! {

/// Why an operation failed. Every failure aborts the operation.
#[derive(Clone, Copy, Debug, PartialEq, Eq, Structural)]
pub enum Error {
    /// No remittance has the given id.
    RemittanceNotFound,
    /// The caller may not perform this operation.
    Unauthorized,
    /// A target amount must be greater than zero.
    InvalidTargetAmount,
    /// A contribution must be greater than zero.
    InvalidContributionAmount,
    /// The remittance has already been released.
    AlreadyReleased,
    /// The remittance has been cancelled.
    RemittanceCancelled,
    /// The target has not been reached, so funds cannot be released.
    TargetNotMet,
    /// The purpose is too long, or empty once whitespace is trimmed.
    PurposeMaxLength,
    /// The recipient is not valid.
    InvalidRecipient,
    /// The refund has already been claimed.
    RefundAlreadyClaimed,
    /// The caller has no contribution to this remittance.
    NoContribution,
    /// The remittance is not cancelled, so no refund can be claimed.
    NotCancelled,
    /// The ledger is paused.
    ContractPaused,
    /// The platform fee exceeds its maximum.
    FeeTooHigh,
    /// A transfer of funds failed.
    TransferFailed,
    /// An arithmetic operation overflowed.
    ArithmeticOverflow,
    /// The host's storage failed.
    StorageError,
    /// A principal is the zero address.
    InvalidAccountHash,
    /// A required argument is missing.
    MissingArgument,
}

/// The numeric code reported to the host for each error.
pub open spec fn code_of(e: Error) -> u16 {
    match e {
        Error::RemittanceNotFound => 1,
        Error::Unauthorized => 2,
        Error::InvalidTargetAmount => 3,
        Error::InvalidContributionAmount => 5,
        Error::AlreadyReleased => 6,
        Error::RemittanceCancelled => 7,
        Error::TargetNotMet => 8,
        Error::PurposeMaxLength => 9,
        Error::InvalidRecipient => 10,
        Error::RefundAlreadyClaimed => 11,
        Error::NoContribution => 12,
        Error::NotCancelled => 13,
        Error::ContractPaused => 14,
        Error::FeeTooHigh => 15,
        Error::TransferFailed => 16,
        Error::ArithmeticOverflow => 17,
        Error::StorageError => 18,
        Error::InvalidAccountHash => 19,
        Error::MissingArgument => 20,
    }
}

impl Error {
    /// The numeric code reported to the host for this error.
    pub fn code(&self) -> (r: u16)
        ensures
            r == code_of(*self),
    {
        match self {
            Error::RemittanceNotFound => 1,
            Error::Unauthorized => 2,
            Error::InvalidTargetAmount => 3,
            Error::InvalidContributionAmount => 5,
            Error::AlreadyReleased => 6,
            Error::RemittanceCancelled => 7,
            Error::TargetNotMet => 8,
            Error::PurposeMaxLength => 9,
            Error::InvalidRecipient => 10,
            Error::RefundAlreadyClaimed => 11,
            Error::NoContribution => 12,
            Error::NotCancelled => 13,
            Error::ContractPaused => 14,
            Error::FeeTooHigh => 15,
            Error::TransferFailed => 16,
            Error::ArithmeticOverflow => 17,
            Error::StorageError => 18,
            Error::InvalidAccountHash => 19,
            Error::MissingArgument => 20,
        }
    }
}

/// The longest purpose, in bytes.
pub const MAX_PURPOSE_LENGTH: usize = 256;

/// The highest platform fee, in basis points (5%).
pub const MAX_FEE_BPS: u64 = 500;

/// The platform fee a new ledger starts with, in basis points (0.5%).
pub const DEFAULT_FEE_BPS: u64 = 50;

} // verus!
