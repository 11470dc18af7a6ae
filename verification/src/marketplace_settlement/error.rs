//! The ways in which a settlement operation can be turned down.

use vstd::prelude::*;

verus! {

/// Why a settlement operation did not go through.
#[derive(Clone, Copy, Debug, PartialEq, Eq, Structural)]
pub enum SettlementError {
    /// The caller lacks the identity or role that the operation asks for.
    Unauthorized,
    /// The swap, royalty record or transaction referred to is absent.
    NotFound,
    /// The operation is not valid in the current lifecycle state.
    InvalidState,
    /// The deadline has passed.
    Expired,
    /// An amount is out of bounds, lists differ in length, or a collection
    /// that must hold items is empty.
    InvalidAmount,
    /// A royalty of more than half of the price was asked for.
    InvalidRoyaltyPercentage,
    /// The funds do not cover what is due.
    InsufficientFunds,
    /// The same caller is already inside the same operation.
    Reentrant,
}

} // verus!
