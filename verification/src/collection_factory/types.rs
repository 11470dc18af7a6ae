//! The records of a collection and of the factory.

use soroban_sdk::Address;
use vstd::prelude::*;

verus! {

/// How a collection is set up.
#[derive(Debug)]
pub struct CollectionConfig {
    pub name: soroban_sdk::String,
    pub symbol: soroban_sdk::String,
    pub description: soroban_sdk::String,
    pub base_uri: soroban_sdk::String,
    pub max_supply: Option<u32>,
    pub is_public_mint: bool,
    /// In basis points.
    pub royalty_percentage: u32,
    pub royalty_recipient: Address,
}

impl Clone for CollectionConfig {
    fn clone(&self) -> (r: Self)
        ensures
            r == *self,
    {
        CollectionConfig {
            name: self.name.clone(),
            symbol: self.symbol.clone(),
            description: self.description.clone(),
            base_uri: self.base_uri.clone(),
            max_supply: self.max_supply,
            is_public_mint: self.is_public_mint,
            royalty_percentage: self.royalty_percentage,
            royalty_recipient: self.royalty_recipient.clone(),
        }
    }
}

/// What is recorded of a token when it is minted.
#[derive(Debug)]
pub struct TokenMetadata {
    pub token_id: u32,
    pub uri: soroban_sdk::String,
    pub attributes: soroban_sdk::Vec<(soroban_sdk::String, soroban_sdk::String)>,
    pub creator: Address,
    pub created_at: u64,
}

impl Clone for TokenMetadata {
    fn clone(&self) -> (r: Self)
        ensures
            r == *self,
    {
        TokenMetadata {
            token_id: self.token_id,
            uri: self.uri.clone(),
            attributes: self.attributes.clone(),
            creator: self.creator.clone(),
            created_at: self.created_at,
        }
    }
}

/// What the factory records of a collection.
#[derive(Debug)]
pub struct CollectionInfo {
    pub address: Address,
    pub creator: Address,
    pub config: CollectionConfig,
    pub created_at: u64,
    pub total_tokens: u32,
}

impl Clone for CollectionInfo {
    fn clone(&self) -> (r: Self)
        ensures
            r == *self,
    {
        CollectionInfo {
            address: self.address.clone(),
            creator: self.creator.clone(),
            config: self.config.clone(),
            created_at: self.created_at,
            total_tokens: self.total_tokens,
        }
    }
}

/// Who receives the royalty of a collection, and how much.
#[derive(Debug)]
pub struct RoyaltyInfo {
    pub recipient: Address,
    /// In basis points.
    pub percentage: u32,
}

impl Clone for RoyaltyInfo {
    fn clone(&self) -> (r: Self)
        ensures
            r == *self,
    {
        RoyaltyInfo { recipient: self.recipient.clone(), percentage: self.percentage }
    }
}

} // verus!
