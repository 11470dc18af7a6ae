//! The ways in which an operation on a collection can be turned down.

use vstd::prelude::*;

verus! {

/// Why an operation on a collection or on the factory did not go through.
#[derive(Clone, Copy, Debug, PartialEq, Eq, PartialOrd, Ord, Structural)]
pub enum ContractError {
    NotAuthorized,
    AlreadyInitialized,
    NotFound,
    InsufficientBalance,
    InvalidAmount,
    SupplyLimitExceeded,
    CollectionNotFound,
    NotMinter,
    ContractPaused,
    InvalidRoyalty,
    InvalidRecipient,
    TokenAlreadyExists,
}

impl ContractError {
    /// The number under which the ledger reports the error, from one.
    pub fn code(&self) -> (r: u32)
        ensures
            1 <= r <= 12,
            r == error_code(*self),
    {
        match self {
            ContractError::NotAuthorized => 1,
            ContractError::AlreadyInitialized => 2,
            ContractError::NotFound => 3,
            ContractError::InsufficientBalance => 4,
            ContractError::InvalidAmount => 5,
            ContractError::SupplyLimitExceeded => 6,
            ContractError::CollectionNotFound => 7,
            ContractError::NotMinter => 8,
            ContractError::ContractPaused => 9,
            ContractError::InvalidRoyalty => 10,
            ContractError::InvalidRecipient => 11,
            ContractError::TokenAlreadyExists => 12,
        }
    }
}

/// The number under which the ledger reports an error.
pub open spec fn error_code(e: ContractError) -> u32 {
    match e {
        ContractError::NotAuthorized => 1,
        ContractError::AlreadyInitialized => 2,
        ContractError::NotFound => 3,
        ContractError::InsufficientBalance => 4,
        ContractError::InvalidAmount => 5,
        ContractError::SupplyLimitExceeded => 6,
        ContractError::CollectionNotFound => 7,
        ContractError::NotMinter => 8,
        ContractError::ContractPaused => 9,
        ContractError::InvalidRoyalty => 10,
        ContractError::InvalidRecipient => 11,
        ContractError::TokenAlreadyExists => 12,
    }
}

} // verus!
