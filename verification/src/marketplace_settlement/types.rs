//! The records that the settlement engine keeps and hands out.

use crate::host::{same_address, same_symbol, Amounts};
use soroban_sdk::{Address, Symbol};
use vstd::prelude::*;

verus! {

/// A token or a collection of non-fungible tokens: the contract that issues
/// it and its symbol.
#[derive(Debug)]
pub struct Asset {
    pub contract: Address,
    pub symbol: Symbol,
}

impl Clone for Asset {
    fn clone(&self) -> (r: Self)
        ensures
            r == *self,
    {
        Asset { contract: self.contract.clone(), symbol: self.symbol.clone() }
    }
}

impl Asset {
    /// Whether the two name the same contract and the same symbol.
    pub fn same(&self, other: &Asset) -> (r: bool)
        ensures
            r == (*self == *other),
    {
        same_address(&self.contract, &other.contract) && same_symbol(&self.symbol, &other.symbol)
    }
}

/// A copy of an optional address.
pub fn clone_party(party: &Option<Address>) -> (r: Option<Address>)
    ensures
        r == *party,
{
    match party {
        Some(a) => Some(a.clone()),
        None => None,
    }
}

/// Where a sale, a trade or a bundle stands in its life.
#[derive(Clone, Copy, Debug, PartialEq, Eq, Structural)]
pub enum TransactionState {
    Pending,
    Funded,
    Executed,
    Cancelled,
}

/// One movement of an asset that the host has to perform.
#[derive(Debug)]
pub enum AssetTransfer {
    /// Move the token `token_id` of the collection `contract`.
    Nft { contract: Address, from: Address, to: Address, token_id: u64 },
    /// Move `amount` units of the token `contract`.
    Tokens { contract: Address, from: Address, to: Address, amount: i128 },
}

/// How the price of a sale is split: the shares in basis points, the price,
/// and the amount that each recipient is paid.
#[derive(Debug)]
pub struct RoyaltyDistribution {
    pub creator_address: Address,
    pub creator_percentage: u64,
    pub seller_percentage: u64,
    pub platform_percentage: u64,
    pub total_amount: i128,
    pub amounts: Amounts,
}

impl Clone for RoyaltyDistribution {
    fn clone(&self) -> (r: Self)
        ensures
            r == *self,
    {
        RoyaltyDistribution {
            creator_address: self.creator_address.clone(),
            creator_percentage: self.creator_percentage,
            seller_percentage: self.seller_percentage,
            platform_percentage: self.platform_percentage,
            total_amount: self.total_amount,
            amounts: self.amounts.clone(),
        }
    }
}

/// What a distribution of royalties came to.
#[derive(Clone, Copy, Debug)]
pub struct DistributionResult {
    pub transaction_id: u64,
    pub total_amount: i128,
    pub creator_amount: i128,
    pub seller_amount: i128,
    pub platform_amount: i128,
    /// The sum of the payouts whose transfer went through.
    pub distributed_amount: i128,
    /// Whether every payout went through.
    pub distribution_success: bool,
    pub timestamp: u64,
}

/// What the execution of a transaction came to.
#[derive(Clone, Copy, Debug)]
pub struct ExecutionResult {
    pub transaction_id: u64,
    pub success: bool,
    pub transferred_nft: bool,
    pub transferred_payment: bool,
    pub distributed_royalties: bool,
    pub collected_platform_fee: bool,
    pub timestamp: u64,
}

/// A fixed-price sale of one token.
#[derive(Debug)]
pub struct SaleTransaction {
    pub transaction_id: u64,
    pub seller: Address,
    pub buyer: Option<Address>,
    pub nft_address: Address,
    pub token_id: u64,
    pub price: i128,
    pub currency: Asset,
    pub state: TransactionState,
    pub created_at: u64,
    pub expires_at: u64,
    pub escrow_address: Address,
    pub royalty_info: RoyaltyDistribution,
    pub platform_fee: i128,
}

impl Clone for SaleTransaction {
    fn clone(&self) -> (r: Self)
        ensures
            r == *self,
    {
        SaleTransaction {
            transaction_id: self.transaction_id,
            seller: self.seller.clone(),
            buyer: clone_party(&self.buyer),
            nft_address: self.nft_address.clone(),
            token_id: self.token_id,
            price: self.price,
            currency: self.currency.clone(),
            state: self.state,
            created_at: self.created_at,
            expires_at: self.expires_at,
            escrow_address: self.escrow_address.clone(),
            royalty_info: self.royalty_info.clone(),
            platform_fee: self.platform_fee,
        }
    }
}

/// One token of one collection.
#[derive(Debug)]
pub struct NFTItem {
    pub contract: Address,
    pub token_id: u64,
}

impl Clone for NFTItem {
    fn clone(&self) -> (r: Self)
        ensures
            r == *self,
    {
        NFTItem { contract: self.contract.clone(), token_id: self.token_id }
    }
}

/// A copy of a list of tokens.
pub fn clone_items(items: &Vec<NFTItem>) -> (r: Vec<NFTItem>)
    ensures
        r@ == items@,
{
    let mut out: Vec<NFTItem> = Vec::new();
    let mut i: usize = 0;
    while i < items.len()
        invariant
            i <= items.len(),
            out@ == items@.take(i as int),
        decreases items.len() - i,
    {
        out.push(items[i].clone());
        assert(items@.take(i as int).push(items@[i as int]) =~= items@.take(i + 1));
        i += 1;
    }
    assert(items@.take(items.len() as int) =~= items@);
    out
}

/// An exchange of tokens against tokens between two parties.
#[derive(Debug)]
pub struct TradeTransaction {
    pub trade_id: u64,
    pub initiator: Address,
    pub counterparty: Option<Address>,
    pub initiator_nfts: Vec<NFTItem>,
    pub counterparty_nfts: Vec<NFTItem>,
    pub state: TransactionState,
    pub created_at: u64,
    pub expires_at: u64,
    pub platform_fee: i128,
}

/// A trade as contracts speak of it.
pub ghost struct TradeView {
    pub trade_id: u64,
    pub initiator: Address,
    pub counterparty: Option<Address>,
    pub initiator_nfts: Seq<NFTItem>,
    pub counterparty_nfts: Seq<NFTItem>,
    pub state: TransactionState,
    pub created_at: u64,
    pub expires_at: u64,
    pub platform_fee: i128,
}

impl View for TradeTransaction {
    type V = TradeView;

    open spec fn view(&self) -> TradeView {
        TradeView {
            trade_id: self.trade_id,
            initiator: self.initiator,
            counterparty: self.counterparty,
            initiator_nfts: self.initiator_nfts@,
            counterparty_nfts: self.counterparty_nfts@,
            state: self.state,
            created_at: self.created_at,
            expires_at: self.expires_at,
            platform_fee: self.platform_fee,
        }
    }
}

impl Clone for TradeTransaction {
    fn clone(&self) -> (r: Self)
        ensures
            r@ == self@,
    {
        TradeTransaction {
            trade_id: self.trade_id,
            initiator: self.initiator.clone(),
            counterparty: clone_party(&self.counterparty),
            initiator_nfts: clone_items(&self.initiator_nfts),
            counterparty_nfts: clone_items(&self.counterparty_nfts),
            state: self.state,
            created_at: self.created_at,
            expires_at: self.expires_at,
            platform_fee: self.platform_fee,
        }
    }
}

/// A sale of several tokens for one price.
#[derive(Debug)]
pub struct BundleTransaction {
    pub bundle_id: u64,
    pub seller: Address,
    pub buyer: Option<Address>,
    pub items: Vec<NFTItem>,
    pub total_price: i128,
    pub currency: Asset,
    pub state: TransactionState,
    pub created_at: u64,
    pub expires_at: u64,
    pub platform_fee: i128,
}

/// A bundle as contracts speak of it.
pub ghost struct BundleView {
    pub bundle_id: u64,
    pub seller: Address,
    pub buyer: Option<Address>,
    pub items: Seq<NFTItem>,
    pub total_price: i128,
    pub currency: Asset,
    pub state: TransactionState,
    pub created_at: u64,
    pub expires_at: u64,
    pub platform_fee: i128,
}

impl View for BundleTransaction {
    type V = BundleView;

    open spec fn view(&self) -> BundleView {
        BundleView {
            bundle_id: self.bundle_id,
            seller: self.seller,
            buyer: self.buyer,
            items: self.items@,
            total_price: self.total_price,
            currency: self.currency,
            state: self.state,
            created_at: self.created_at,
            expires_at: self.expires_at,
            platform_fee: self.platform_fee,
        }
    }
}

impl Clone for BundleTransaction {
    fn clone(&self) -> (r: Self)
        ensures
            r@ == self@,
    {
        BundleTransaction {
            bundle_id: self.bundle_id,
            seller: self.seller.clone(),
            buyer: clone_party(&self.buyer),
            items: clone_items(&self.items),
            total_price: self.total_price,
            currency: self.currency.clone(),
            state: self.state,
            created_at: self.created_at,
            expires_at: self.expires_at,
            platform_fee: self.platform_fee,
        }
    }
}

/// The policy that the administrator sets once for the whole engine.
#[derive(Debug)]
pub struct AdminConfig {
    pub admin: Address,
    pub emergency_withdrawal_enabled: bool,
    pub max_transaction_duration: u64,
    pub max_auction_duration: u64,
    pub min_bid_increment_bps: u64,
    pub max_royalty_percentage: u64,
    pub dispute_cooling_period: u64,
    pub arbitration_quorum: u32,
}

impl Clone for AdminConfig {
    fn clone(&self) -> (r: Self)
        ensures
            r == *self,
    {
        AdminConfig {
            admin: self.admin.clone(),
            emergency_withdrawal_enabled: self.emergency_withdrawal_enabled,
            max_transaction_duration: self.max_transaction_duration,
            max_auction_duration: self.max_auction_duration,
            min_bid_increment_bps: self.min_bid_increment_bps,
            max_royalty_percentage: self.max_royalty_percentage,
            dispute_cooling_period: self.dispute_cooling_period,
            arbitration_quorum: self.arbitration_quorum,
        }
    }
}

/// A traded volume from which a discount on the platform fee applies.
#[derive(Clone, Copy, Debug)]
pub struct VolumeTier {
    pub min_volume: i128,
    pub fee_discount_bps: u64,
}

/// How the platform fee is computed and who receives it.
#[derive(Debug)]
pub struct FeeConfig {
    pub platform_fee_bps: u64,
    pub minimum_fee: i128,
    pub maximum_fee: i128,
    pub fee_recipient: Address,
    pub dynamic_fee_enabled: bool,
    pub volume_discounts: Vec<VolumeTier>,
    pub vip_exemptions: Vec<Address>,
}

/// A fee configuration as contracts speak of it.
pub ghost struct FeeConfigView {
    pub platform_fee_bps: u64,
    pub minimum_fee: i128,
    pub maximum_fee: i128,
    pub fee_recipient: Address,
    pub dynamic_fee_enabled: bool,
    pub volume_discounts: Seq<VolumeTier>,
    pub vip_exemptions: Seq<Address>,
}

impl View for FeeConfig {
    type V = FeeConfigView;

    open spec fn view(&self) -> FeeConfigView {
        FeeConfigView {
            platform_fee_bps: self.platform_fee_bps,
            minimum_fee: self.minimum_fee,
            maximum_fee: self.maximum_fee,
            fee_recipient: self.fee_recipient,
            dynamic_fee_enabled: self.dynamic_fee_enabled,
            volume_discounts: self.volume_discounts@,
            vip_exemptions: self.vip_exemptions@,
        }
    }
}

} // verus!
