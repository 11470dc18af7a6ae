//! The records that the host publishes after an operation on a collection.

use soroban_sdk::Address;
use vstd::prelude::*;

verus! {

/// A collection was registered with the factory.
#[derive(Debug)]
pub struct Created {
    pub creator: Address,
    pub collection: Address,
    pub id: u32,
}

/// Tokens were minted.
#[derive(Debug)]
pub struct Mint {
    pub collection: Address,
    pub to: Address,
    pub token_id: u32,
    pub amount: u32,
}

/// Tokens changed hands.
#[derive(Debug)]
pub struct Transfer {
    pub collection: Address,
    pub from: Address,
    pub to: Address,
    pub token_id: u32,
    pub amount: u32,
}

/// Tokens were burned.
#[derive(Debug)]
pub struct Burn {
    pub collection: Address,
    pub from: Address,
    pub token_id: u32,
    pub amount: u32,
}

} // verus!
