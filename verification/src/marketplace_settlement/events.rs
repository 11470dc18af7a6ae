//! The records that the host publishes after an operation.

use soroban_sdk::{Address, Bytes};
use vstd::prelude::*;

verus! {

/// An administrator took the assets of a transaction out of escrow.
#[derive(Debug)]
pub struct EmergencyWithdrawalEvent {
    pub transaction_id: u64,
    pub admin: Address,
    pub reason: Bytes,
    pub timestamp: u64,
}

/// Royalties of a transaction were paid out.
#[derive(Debug)]
pub struct RoyaltiesDistributedEvent {
    pub transaction_id: u64,
    pub nft_address: Address,
    pub token_id: u64,
    pub creator: Address,
    pub creator_amount: i128,
    pub seller_amount: i128,
    pub platform_amount: i128,
    pub total_amount: i128,
    pub timestamp: u64,
}

} // verus!
