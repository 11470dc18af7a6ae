use nftopia::marketplace_settlement::atomic_swap::{AtomicSwapEngine, EscrowManager, SwapState};
use nftopia::marketplace_settlement::error::SettlementError;
use nftopia::marketplace_settlement::reentrancy_guard::Operation;
use nftopia::marketplace_settlement::settlement_core::MarketplaceSettlement;
use nftopia::marketplace_settlement::fee_manager::FeeManager;
use nftopia::marketplace_settlement::reentrancy_guard::ReentrancyGuard;
use nftopia::marketplace_settlement::settlement_core::AdminRegistry;
use nftopia::marketplace_settlement::transfer_plan::{next_in_order, result_in_order};
use nftopia::marketplace_settlement::transaction_store::{
    BundleTransactionStore, SaleTransactionStore, TradeTransactionStore,
};
use nftopia::marketplace_settlement::types::{
    Asset, AssetTransfer, FeeConfig, NFTItem, TransactionState,
};
use soroban_sdk::testutils::Address as _;
use soroban_sdk::{Address, Bytes, Env, Symbol};

struct World {
    env: Env,
    admin: Address,
    fee_recipient: Address,
    custody: Address,
    seller: Address,
    buyer: Address,
    creator: Address,
    nft: Address,
    currency: Asset,
}

fn world() -> World {
    let env = Env::default();
    World {
        admin: Address::generate(&env),
        fee_recipient: Address::generate(&env),
        custody: Address::generate(&env),
        seller: Address::generate(&env),
        buyer: Address::generate(&env),
        creator: Address::generate(&env),
        nft: Address::generate(&env),
        currency: Asset { contract: Address::generate(&env), symbol: Symbol::new(&env, "USDC") },
        env,
    }
}

fn settlement(w: &World) -> MarketplaceSettlement {
    let mut s = MarketplaceSettlement::new(w.custody.clone());
    s.initialize(w.admin.clone(), w.fee_recipient.clone()).unwrap();
    s.royalties.set_royalty_info(&w.nft, 7, &w.creator, 500, &w.creator, 900).unwrap();
    s
}

fn core_with_sale(w: &World) -> MarketplaceSettlement {
    let mut s = settlement(w);
    let id = s
        .create_sale(1000, &w.seller, &w.nft, 7, 10000, &w.currency, 3600, Ok(()), Some(&w.seller))
        .unwrap();
    assert_eq!(id, 1);
    s
}

fn fund(w: &World, s: &mut MarketplaceSettlement) {
    let nft_asset = Asset { contract: w.nft.clone(), symbol: Symbol::new(&w.env, "NFT") };
    s.swaps.deposit_to_escrow(1, &w.seller, &nft_asset, 7, true, 1010, Ok(())).unwrap();
}

#[test]
fn initialize_sets_the_defaults_once() {
    let w = world();
    let mut s = MarketplaceSettlement::new(w.custody.clone());
    assert!(s.admin.get().is_none());
    assert_eq!(s.initialize(w.admin.clone(), w.fee_recipient.clone()), Ok(()));
    let admin = s.admin.get().unwrap();
    assert_eq!(admin.admin, w.admin);
    assert!(admin.emergency_withdrawal_enabled);
    assert_eq!(admin.max_transaction_duration, 2592000);
    assert_eq!(admin.max_auction_duration, 604800);
    assert_eq!(admin.min_bid_increment_bps, 100);
    assert_eq!(admin.max_royalty_percentage, 5000);
    assert_eq!(admin.dispute_cooling_period, 86400);
    assert_eq!(admin.arbitration_quorum, 3);
    let fees = s.fees.config().unwrap();
    assert_eq!(fees.platform_fee_bps, 250);
    assert_eq!(fees.minimum_fee, 1000);
    assert_eq!(fees.maximum_fee, 1000000);
    assert_eq!(fees.fee_recipient, w.fee_recipient);
    assert!(fees.dynamic_fee_enabled);
    assert_eq!(fees.volume_discounts.len(), 2);
    assert_eq!(fees.volume_discounts[0].min_volume, 1000000);
    assert_eq!(fees.volume_discounts[0].fee_discount_bps, 50);
    assert_eq!(fees.volume_discounts[1].min_volume, 10000000);
    assert_eq!(fees.volume_discounts[1].fee_discount_bps, 100);
    assert!(fees.vip_exemptions.is_empty());
    let stranger = Address::generate(&w.env);
    assert_eq!(s.initialize(stranger, w.fee_recipient.clone()), Err(SettlementError::InvalidState));
    assert_eq!(s.admin.get().unwrap().admin, w.admin);
}

#[test]
fn created_sale_is_pending_and_expires_after_its_duration() {
    let w = world();
    let s = core_with_sale(&w);
    let sale = s.get_sale(1).unwrap();
    assert_eq!(sale.transaction_id, 1);
    assert_eq!(sale.state, TransactionState::Pending);
    assert_eq!(sale.created_at, 1000);
    assert_eq!(sale.expires_at, sale.created_at + 3600);
    assert_eq!(sale.expires_at, 4600);
    assert_eq!(sale.seller, w.seller);
    assert_eq!(sale.buyer, None);
    assert_eq!(sale.nft_address, w.nft);
    assert_eq!(sale.token_id, 7);
    assert_eq!(sale.price, 10000);
    assert!(sale.currency.same(&w.currency));
    assert_eq!(sale.escrow_address, w.custody);
    assert_eq!(sale.platform_fee, 1000);
    assert_eq!(sale.royalty_info.total_amount, 10000);
    assert_eq!(sale.royalty_info.creator_address, w.creator);
    assert_eq!(sale.royalty_info.amounts.get(w.creator.clone()), Some(500));
    let swap = s.swaps.get_swap_by_transaction(1).unwrap();
    assert_eq!(swap.state, SwapState::Pending);
    assert_eq!(swap.created_at, 1000);
    assert_eq!(swap.seller_escrow[0].holder, w.seller);
    assert_eq!(swap.seller_escrow[0].amount, 7);
    assert_eq!(swap.seller_escrow[0].asset.contract, w.nft);
    assert_eq!(swap.seller_escrow[0].asset.symbol, Symbol::new(&w.env, "NFT"));
    assert_eq!(swap.buyer_escrow[0].holder, w.seller);
    assert_eq!(swap.buyer_escrow[0].amount, 10000);
    assert!(matches!(s.get_sale(2), Err(SettlementError::NotFound)));
    assert!(matches!(s.get_sale(0), Err(SettlementError::NotFound)));
}

#[test]
fn sales_are_numbered_in_the_order_of_their_creation() {
    let w = world();
    let mut s = core_with_sale(&w);
    s.royalties.set_royalty_info(&w.nft, 8, &w.creator, 0, &w.creator, 900).unwrap();
    let id = s.create_sale(2000, &w.seller, &w.nft, 8, 5, &w.currency, 0, Ok(()), Some(&w.seller)).unwrap();
    assert_eq!(id, 2);
    assert_eq!(s.get_sale(2).unwrap().expires_at, 2000);
    assert_eq!(s.get_sale(1).unwrap().token_id, 7);
    assert_eq!(s.swaps.get_swap_by_transaction(2).unwrap().swap_id, 2);
    assert_eq!(s.sales.records().len(), 2);
}

#[test]
fn sale_creation_is_turned_down_without_change() {
    let w = world();
    let mut s = settlement(&w);
    let stranger = Address::generate(&w.env);
    let r = s.create_sale(
        1000,
        &w.seller,
        &w.nft,
        7,
        10000,
        &w.currency,
        3600,
        Err(SettlementError::InvalidAmount),
        Some(&w.seller),
    );
    assert_eq!(r, Err(SettlementError::InvalidAmount));
    let r = s.create_sale(1000, &w.seller, &w.nft, 7, 10000, &w.currency, 2592001, Ok(()), Some(&w.seller));
    assert_eq!(r, Err(SettlementError::InvalidAmount));
    let r = s.create_sale(u64::MAX, &w.seller, &w.nft, 7, 10000, &w.currency, 1, Ok(()), Some(&w.seller));
    assert_eq!(r, Err(SettlementError::InvalidAmount));
    let r = s.create_sale(1000, &w.seller, &w.nft, 7, 10000, &w.currency, 3600, Ok(()), Some(&stranger));
    assert_eq!(r, Err(SettlementError::Unauthorized));
    let r = s.create_sale(1000, &w.seller, &w.nft, 7, 10000, &w.currency, 3600, Ok(()), None);
    assert_eq!(r, Err(SettlementError::Unauthorized));
    let r = s.create_sale(1000, &w.seller, &w.nft, 8, 10000, &w.currency, 3600, Ok(()), Some(&w.seller));
    assert_eq!(r, Err(SettlementError::NotFound));
    s.guard.enter(&w.seller, Operation::CreateSale).unwrap();
    let r = s.create_sale(1000, &w.seller, &w.nft, 7, 10000, &w.currency, 3600, Ok(()), Some(&w.seller));
    assert_eq!(r, Err(SettlementError::Reentrant));
    s.guard.exit(&w.seller, Operation::CreateSale);
    assert!(s.sales.records().is_empty());
    assert!(s.swaps.swaps().is_empty());
    let r = s.create_sale(1000, &w.seller, &w.nft, 7, 10000, &w.currency, 2592000, Ok(()), Some(&w.seller));
    assert_eq!(r, Ok(1));
    assert_eq!(s.guard.active_count(), 0);
    let mut bare = MarketplaceSettlement::new(w.custody.clone());
    bare.royalties.set_royalty_info(&w.nft, 7, &w.creator, 500, &w.creator, 900).unwrap();
    let r = bare.create_sale(1000, &w.seller, &w.nft, 7, 10000, &w.currency, 3600, Ok(()), Some(&w.seller));
    assert_eq!(r, Err(SettlementError::NotFound));
    bare.swaps
        .initialize_swap(1, &w.seller, &w.buyer, &w.currency, 7, &w.currency, 1, 5)
        .unwrap();
    bare.initialize(w.admin.clone(), w.fee_recipient.clone()).unwrap();
    let r = bare.create_sale(1000, &w.seller, &w.nft, 7, 10000, &w.currency, 3600, Ok(()), Some(&w.seller));
    assert_eq!(r, Err(SettlementError::InvalidState));
    assert!(bare.sales.records().is_empty());
}

#[test]
fn cancel_a_pending_sale_and_not_a_funded_one() {
    let w = world();
    let mut s = core_with_sale(&w);
    let sale = Symbol::new(&w.env, "sale");
    let stranger = Address::generate(&w.env);
    assert_eq!(s.cancel_transaction(1, &sale, &stranger), Err(SettlementError::Unauthorized));
    assert_eq!(s.cancel_transaction(5, &sale, &w.seller), Err(SettlementError::NotFound));
    let mut funded = s.get_sale(1).unwrap();
    funded.state = TransactionState::Funded;
    s.sales.update(funded).unwrap();
    assert_eq!(s.cancel_transaction(1, &sale, &w.seller), Err(SettlementError::InvalidState));
    assert_eq!(s.get_sale(1).unwrap().state, TransactionState::Funded);
    let mut pending = s.get_sale(1).unwrap();
    pending.state = TransactionState::Pending;
    s.sales.update(pending).unwrap();
    assert_eq!(s.cancel_transaction(1, &sale, &w.seller), Ok(()));
    assert_eq!(s.get_sale(1).unwrap().state, TransactionState::Cancelled);
    assert_eq!(s.cancel_transaction(1, &sale, &w.seller), Err(SettlementError::InvalidState));
}

#[test]
fn only_sales_can_be_cancelled() {
    let w = world();
    let mut s = core_with_sale(&w);
    for kind in ["trade", "auction", "bundle", "Sale", "sales", ""] {
        assert_eq!(s.cancel_transaction_of(1, kind, &w.seller), Err(SettlementError::InvalidAmount));
    }
    assert_eq!(
        s.cancel_transaction(1, &Symbol::new(&w.env, "trade"), &w.seller),
        Err(SettlementError::InvalidAmount)
    );
    assert_eq!(
        s.cancel_transaction(1, &Symbol::new(&w.env, "a_kind_with_a_long_name"), &w.seller),
        Err(SettlementError::InvalidAmount)
    );
    s.guard.enter(&w.seller, Operation::CancelTransaction).unwrap();
    assert_eq!(s.cancel_transaction_of(1, "sale", &w.seller), Err(SettlementError::Reentrant));
    s.guard.exit(&w.seller, Operation::CancelTransaction);
    assert_eq!(s.get_sale(1).unwrap().state, TransactionState::Pending);
    assert_eq!(s.cancel_transaction_of(1, "sale", &w.seller), Ok(()));
    assert_eq!(s.get_sale(1).unwrap().state, TransactionState::Cancelled);
}

#[test]
fn funded_sale_is_executed_and_booked() {
    let w = world();
    let mut s = core_with_sale(&w);
    fund(&w, &mut s);
    assert_eq!(s.swaps.get_swap_by_transaction(1).unwrap().state, SwapState::SellerFunded);
    let plan = s.sale_settlement(1, &w.buyer, 10000, 1100).unwrap();
    match plan.payment.as_ref().unwrap() {
        AssetTransfer::Tokens { contract, from, to, amount } => {
            assert_eq!(contract, &w.currency.contract);
            assert_eq!(from, &w.buyer);
            assert_eq!(to, &w.custody);
            assert_eq!(*amount, 10000);
        }
        other => panic!("{:?}", other),
    }
    assert_eq!(plan.swap_legs.len(), 2);
    match &plan.swap_legs[0] {
        AssetTransfer::Nft { contract, from, to, token_id } => {
            assert_eq!(contract, &w.nft);
            assert_eq!(from, &w.custody);
            assert_eq!(to, &w.buyer);
            assert_eq!(*token_id, 7);
        }
        other => panic!("{:?}", other),
    }
    match &plan.swap_legs[1] {
        AssetTransfer::Tokens { contract, from, to, amount } => {
            assert_eq!(contract, &w.currency.contract);
            assert_eq!(from, &w.custody);
            assert_eq!(to, &w.seller);
            assert_eq!(*amount, 10000);
        }
        other => panic!("{:?}", other),
    }
    assert_eq!(plan.payouts.len(), 1);
    match &plan.payouts[0] {
        AssetTransfer::Tokens { contract, from, to, amount } => {
            assert_eq!(contract, &w.currency.contract);
            assert_eq!(from, &w.custody);
            assert_eq!(to, &w.creator);
            assert_eq!(*amount, 500);
        }
        other => panic!("{:?}", other),
    }
    match &plan.fee {
        AssetTransfer::Tokens { contract, from, to, amount } => {
            assert_eq!(contract, &w.currency.contract);
            assert_eq!(from, &w.buyer);
            assert_eq!(to, &w.custody);
            assert_eq!(*amount, 1000);
        }
        other => panic!("{:?}", other),
    }
    let result = s.execute_sale(1, &w.buyer, 10000, 1100, Ok(()), Ok(()), &vec![true], Ok(())).unwrap();
    assert_eq!(result.transaction_id, 1);
    assert!(result.success);
    assert!(result.transferred_nft);
    assert!(result.transferred_payment);
    assert!(result.distributed_royalties);
    assert!(result.collected_platform_fee);
    assert_eq!(result.timestamp, 1100);
    let sale = s.get_sale(1).unwrap();
    assert_eq!(sale.state, TransactionState::Executed);
    assert_eq!(sale.buyer, Some(w.buyer.clone()));
    let swap = s.swaps.get_swap_by_transaction(1).unwrap();
    assert_eq!(swap.state, SwapState::Executed);
    assert_eq!(swap.executed_at, Some(1100));
    assert_eq!(swap.buyer_escrow[0].holder, w.buyer);
    assert_eq!(swap.buyer_escrow[0].deposited_at, 1100);
    assert_eq!(swap.seller_escrow[0].holder, w.seller);
    assert_eq!(s.get_accumulated_fees(&w.currency), 1000);
    assert_eq!(s.get_user_volume(&w.buyer), Ok(10000));
    assert_eq!(s.get_user_volume(&w.seller), Ok(10000));
    assert_eq!(s.guard.active_count(), 0);
    let again = s.execute_sale(1, &w.buyer, 10000, 1100, Ok(()), Ok(()), &vec![true], Ok(()));
    assert!(matches!(again, Err(SettlementError::InvalidState)));
}

#[test]
fn failed_payout_does_not_fail_the_sale() {
    let w = world();
    let mut s = core_with_sale(&w);
    fund(&w, &mut s);
    let result = s.execute_sale(1, &w.buyer, 10000, 1100, Ok(()), Ok(()), &vec![false], Ok(())).unwrap();
    assert!(result.success);
    assert!(!result.distributed_royalties);
    assert_eq!(s.get_sale(1).unwrap().state, TransactionState::Executed);
}

#[test]
fn sale_execution_is_turned_down_without_change() {
    let w = world();
    let mut s = core_with_sale(&w);
    let r = s.execute_sale(1, &w.buyer, 10000, 1100, Ok(()), Ok(()), &vec![true], Ok(()));
    assert!(matches!(r, Err(SettlementError::InvalidState)));
    assert!(matches!(s.sale_settlement(1, &w.buyer, 10000, 1100), Err(SettlementError::InvalidState)));
    fund(&w, &mut s);
    let r = s.execute_sale(2, &w.buyer, 10000, 1100, Ok(()), Ok(()), &vec![true], Ok(()));
    assert!(matches!(r, Err(SettlementError::NotFound)));
    let r = s.execute_sale(1, &w.buyer, 10000, 4601, Ok(()), Ok(()), &vec![true], Ok(()));
    assert!(matches!(r, Err(SettlementError::Expired)));
    assert!(matches!(s.sale_settlement(1, &w.buyer, 10000, 4601), Err(SettlementError::Expired)));
    let r = s.execute_sale(1, &w.buyer, 9999, 1100, Ok(()), Ok(()), &vec![true], Ok(()));
    assert!(matches!(r, Err(SettlementError::InvalidAmount)));
    let r = s.execute_sale(1, &w.buyer, 10000, 1100, Ok(()), Err(SettlementError::InsufficientFunds), &vec![true], Ok(()));
    assert!(matches!(r, Err(SettlementError::InsufficientFunds)));
    let r = s.execute_sale(1, &w.buyer, 10000, 1100, Err(SettlementError::Unauthorized), Ok(()), &vec![true], Ok(()));
    assert!(matches!(r, Err(SettlementError::Unauthorized)));
    let r = s.execute_sale(1, &w.buyer, 10000, 0, Ok(()), Ok(()), &vec![true], Ok(()));
    assert!(matches!(r, Err(SettlementError::InvalidState)));
    let r = s.execute_sale(1, &w.buyer, 10000, 1100, Ok(()), Ok(()), &vec![], Ok(()));
    assert!(matches!(r, Err(SettlementError::InvalidAmount)));
    let r = s.execute_sale(1, &w.buyer, 10000, 1100, Ok(()), Ok(()), &vec![true], Err(SettlementError::Unauthorized));
    assert!(matches!(r, Err(SettlementError::Unauthorized)));
    s.guard.enter(&w.buyer, Operation::ExecuteSale).unwrap();
    let r = s.execute_sale(1, &w.buyer, 10000, 1100, Ok(()), Ok(()), &vec![true], Ok(()));
    assert!(matches!(r, Err(SettlementError::Reentrant)));
    assert!(matches!(s.sale_settlement(1, &w.buyer, 10000, 1100), Err(SettlementError::Reentrant)));
    s.guard.exit(&w.buyer, Operation::ExecuteSale);
    s.guard.enter(&w.buyer, Operation::ExecuteSwap).unwrap();
    let r = s.execute_sale(1, &w.buyer, 10000, 1100, Ok(()), Ok(()), &vec![true], Ok(()));
    assert!(matches!(r, Err(SettlementError::Reentrant)));
    s.guard.exit(&w.buyer, Operation::ExecuteSwap);
    let sale = s.get_sale(1).unwrap();
    assert_eq!(sale.state, TransactionState::Pending);
    assert_eq!(sale.buyer, None);
    let swap = s.swaps.get_swap_by_transaction(1).unwrap();
    assert_eq!(swap.state, SwapState::SellerFunded);
    assert_eq!(swap.buyer_escrow[0].holder, w.seller);
    assert_eq!(swap.buyer_escrow[0].deposited_at, 0);
    assert_eq!(s.get_accumulated_fees(&w.currency), 0);
    assert_eq!(s.get_user_volume(&w.buyer), Ok(0));
    let r = s.execute_sale(1, &w.buyer, 10000, 4600, Ok(()), Ok(()), &vec![true], Ok(()));
    assert!(r.is_ok());
}

#[test]
fn trade_goes_from_pending_to_funded_to_executed() {
    let w = world();
    let mut s = settlement(&w);
    let mine = vec![NFTItem { contract: w.nft.clone(), token_id: 1 }];
    let theirs = vec![NFTItem { contract: w.nft.clone(), token_id: 2 }, NFTItem { contract: w.nft.clone(), token_id: 3 }];
    let r = s.create_trade(100, &w.seller, None, vec![], theirs.clone(), 50);
    assert_eq!(r, Err(SettlementError::InvalidAmount));
    let r = s.create_trade(u64::MAX, &w.seller, None, mine.clone(), theirs.clone(), 1);
    assert_eq!(r, Err(SettlementError::InvalidAmount));
    let id = s.create_trade(100, &w.seller, None, mine.clone(), theirs.clone(), 50).unwrap();
    assert_eq!(id, 1);
    let trade = s.trades.get(1).unwrap();
    assert_eq!(trade.trade_id, 1);
    assert_eq!(trade.initiator, w.seller);
    assert_eq!(trade.counterparty, None);
    assert_eq!(trade.initiator_nfts.len(), 1);
    assert_eq!(trade.counterparty_nfts.len(), 2);
    assert_eq!(trade.counterparty_nfts[1].token_id, 3);
    assert_eq!(trade.state, TransactionState::Pending);
    assert_eq!(trade.created_at, 100);
    assert_eq!(trade.expires_at, 150);
    assert_eq!(trade.platform_fee, 0);
    assert_eq!(s.execute_trade(1, &w.buyer), Err(SettlementError::InvalidState));
    assert_eq!(s.accept_trade(2, &w.buyer, 120), Err(SettlementError::NotFound));
    assert_eq!(s.accept_trade(1, &w.buyer, 151), Err(SettlementError::Expired));
    s.guard.enter(&w.buyer, Operation::AcceptTrade).unwrap();
    assert_eq!(s.accept_trade(1, &w.buyer, 120), Err(SettlementError::Reentrant));
    s.guard.exit(&w.buyer, Operation::AcceptTrade);
    assert_eq!(s.accept_trade(1, &w.buyer, 150), Ok(()));
    let trade = s.trades.get(1).unwrap();
    assert_eq!(trade.state, TransactionState::Funded);
    assert_eq!(trade.counterparty, Some(w.buyer.clone()));
    assert_eq!(s.accept_trade(1, &w.buyer, 120), Err(SettlementError::InvalidState));
    assert_eq!(s.execute_trade(3, &w.buyer), Err(SettlementError::NotFound));
    assert_eq!(s.execute_trade(1, &w.buyer), Ok(()));
    assert_eq!(s.trades.get(1).unwrap().state, TransactionState::Executed);
    assert_eq!(s.execute_trade(1, &w.buyer), Err(SettlementError::InvalidState));
    let second = s.create_trade(100, &w.seller, Some(w.buyer.clone()), mine, vec![], 50).unwrap();
    assert_eq!(second, 2);
    assert_eq!(s.trades.get(2).unwrap().counterparty, Some(w.buyer.clone()));
}

#[test]
fn bundle_needs_items() {
    let w = world();
    let mut s = settlement(&w);
    let r = s.create_bundle(100, &w.seller, vec![], 500, w.currency.clone(), 50);
    assert_eq!(r, Err(SettlementError::InvalidAmount));
    let items = vec![NFTItem { contract: w.nft.clone(), token_id: 1 }, NFTItem { contract: w.nft.clone(), token_id: 2 }];
    s.guard.enter(&w.seller, Operation::CreateBundle).unwrap();
    let r = s.create_bundle(100, &w.seller, items.clone(), 500, w.currency.clone(), 50);
    assert_eq!(r, Err(SettlementError::Reentrant));
    s.guard.exit(&w.seller, Operation::CreateBundle);
    let id = s.create_bundle(100, &w.seller, items, 500, w.currency.clone(), 50).unwrap();
    assert_eq!(id, 1);
    let bundle = s.bundles.get(1).unwrap();
    assert_eq!(bundle.bundle_id, 1);
    assert_eq!(bundle.seller, w.seller);
    assert_eq!(bundle.buyer, None);
    assert_eq!(bundle.items.len(), 2);
    assert_eq!(bundle.items[1].token_id, 2);
    assert_eq!(bundle.total_price, 500);
    assert_eq!(bundle.state, TransactionState::Pending);
    assert_eq!(bundle.created_at, 100);
    assert_eq!(bundle.expires_at, 150);
    assert_eq!(bundle.platform_fee, 0);
    assert!(matches!(s.bundles.get(2), Err(SettlementError::NotFound)));
}

#[test]
fn emergency_withdrawal_is_for_the_administrator() {
    let w = world();
    let mut s = core_with_sale(&w);
    let reason = Bytes::from_slice(&w.env, b"stuck");
    let r = s.emergency_withdraw(1, reason.clone(), &w.seller, 2000, Ok(()));
    assert!(matches!(r, Err(SettlementError::Unauthorized)));
    let r = s.emergency_withdraw(9, reason.clone(), &w.admin, 2000, Ok(()));
    assert!(matches!(r, Err(SettlementError::NotFound)));
    let r = s.emergency_withdraw(1, reason.clone(), &w.admin, 2000, Err(SettlementError::InsufficientFunds));
    assert!(matches!(r, Err(SettlementError::InsufficientFunds)));
    assert_eq!(s.swaps.get_swap_by_transaction(1).unwrap().state, SwapState::Pending);
    assert!(matches!(s.emergency_refunds(1, &w.seller), Err(SettlementError::Unauthorized)));
    assert!(matches!(s.emergency_refunds(9, &w.admin), Err(SettlementError::NotFound)));
    let refunds = s.emergency_refunds(1, &w.admin).unwrap();
    assert_eq!(refunds.len(), 2);
    let event = s.emergency_withdraw(1, reason.clone(), &w.admin, 2000, Ok(())).unwrap();
    assert_eq!(event.transaction_id, 1);
    assert_eq!(event.admin, w.admin);
    assert_eq!(event.reason, reason);
    assert_eq!(event.timestamp, 2000);
    assert_eq!(s.swaps.get_swap_by_transaction(1).unwrap().state, SwapState::Failed);
    let mut bare = MarketplaceSettlement::new(w.custody.clone());
    assert!(matches!(bare.emergency_refunds(1, &w.admin), Err(SettlementError::Unauthorized)));
    let r = bare.emergency_withdraw(1, reason, &w.admin, 2000, Ok(()));
    assert!(matches!(r, Err(SettlementError::Unauthorized)));
}

#[test]
fn fee_configuration_and_withdrawal_are_for_the_administrator() {
    let w = world();
    let mut s = core_with_sale(&w);
    fund(&w, &mut s);
    s.execute_sale(1, &w.buyer, 10000, 1100, Ok(()), Ok(()), &vec![true], Ok(())).unwrap();
    let recipient = Address::generate(&w.env);
    let r = s.withdraw_platform_fees(&w.currency, &recipient, &w.seller, Ok(()));
    assert_eq!(r, Err(SettlementError::Unauthorized));
    assert!(matches!(
        s.fee_withdrawal(&w.currency, &recipient, &w.seller),
        Err(SettlementError::Unauthorized)
    ));
    match s.fee_withdrawal(&w.currency, &recipient, &w.admin).unwrap() {
        AssetTransfer::Tokens { contract, from, to, amount } => {
            assert_eq!(contract, w.currency.contract);
            assert_eq!(from, w.custody);
            assert_eq!(to, recipient);
            assert_eq!(amount, 1000);
        }
        other => panic!("{:?}", other),
    }
    let r = s.withdraw_platform_fees(&w.currency, &recipient, &w.admin, Err(SettlementError::InsufficientFunds));
    assert_eq!(r, Err(SettlementError::InsufficientFunds));
    assert_eq!(s.get_accumulated_fees(&w.currency), 1000);
    let r = s.withdraw_platform_fees(&w.currency, &recipient, &w.admin, Ok(()));
    assert_eq!(r, Ok(1000));
    assert_eq!(s.get_accumulated_fees(&w.currency), 0);
    let config = FeeConfig {
        platform_fee_bps: 100,
        minimum_fee: 0,
        maximum_fee: 10,
        fee_recipient: recipient.clone(),
        dynamic_fee_enabled: false,
        volume_discounts: vec![],
        vip_exemptions: vec![],
    };
    let r = s.update_fee_config(
        FeeConfig {
            platform_fee_bps: 100,
            minimum_fee: 0,
            maximum_fee: 10,
            fee_recipient: recipient.clone(),
            dynamic_fee_enabled: false,
            volume_discounts: vec![],
            vip_exemptions: vec![],
        },
        &w.seller,
    );
    assert_eq!(r, Err(SettlementError::Unauthorized));
    assert_eq!(s.fees.config().unwrap().platform_fee_bps, 250);
    assert_eq!(s.update_fee_config(config, &w.admin), Ok(()));
    assert_eq!(s.fees.config().unwrap().platform_fee_bps, 100);
    assert_eq!(s.fees.calculate_fee(10000, &w.buyer), Ok(10));
    assert_eq!(s.get_user_volume(&w.buyer), Ok(10000));
}

#[test]
fn escrow_manager_reads_the_holdings_of_a_transaction() {
    let w = world();
    let mut s = core_with_sale(&w);
    let nft_asset = Asset { contract: w.nft.clone(), symbol: Symbol::new(&w.env, "NFT") };
    assert_eq!(EscrowManager::check_escrow_balance(&s.swaps, 1, &w.currency), Ok(0));
    fund(&w, &mut s);
    assert_eq!(EscrowManager::check_escrow_balance(&s.swaps, 1, &w.currency), Ok(0));
    s.execute_sale(1, &w.buyer, 10000, 1100, Ok(()), Ok(()), &vec![true], Ok(())).unwrap();
    let holdings = EscrowManager::get_escrow_holdings(&s.swaps, 1);
    assert_eq!(holdings.len(), 2);
    assert!(holdings[0].is_nft);
    assert_eq!(holdings[0].deposited_at, 1010);
    assert_eq!(holdings[1].amount, 10000);
    assert_eq!(holdings[1].deposited_at, 1100);
    assert_eq!(holdings[1].holder, w.buyer);
    assert!(EscrowManager::get_escrow_holdings(&s.swaps, 2).is_empty());
    assert_eq!(EscrowManager::check_escrow_balance(&s.swaps, 1, &w.currency), Ok(10000));
    assert_eq!(EscrowManager::check_escrow_balance(&s.swaps, 2, &w.currency), Ok(0));
    assert_eq!(EscrowManager::check_escrow_balance(&s.swaps, 1, &nft_asset), Ok(0));
    match EscrowManager::release_escrow(&s.swaps, 1, &w.buyer, &w.currency, 40) {
        AssetTransfer::Tokens { contract, from, to, amount } => {
            assert_eq!(contract, w.currency.contract);
            assert_eq!(from, w.custody);
            assert_eq!(to, w.buyer);
            assert_eq!(amount, 40);
        }
        other => panic!("{:?}", other),
    }
}

#[test]
fn restored_records_must_be_consistent() {
    let w = world();
    let mut s = core_with_sale(&w);
    fund(&w, &mut s);
    let swaps: Vec<_> = s.swaps.swaps().iter().cloned().collect();
    let engine = AtomicSwapEngine::restore(w.custody.clone(), s.swaps.next_swap(), swaps.clone()).unwrap();
    assert_eq!(engine.get_swap_by_transaction(1).unwrap().state, SwapState::SellerFunded);
    assert_eq!(engine.custody(), &w.custody);
    assert!(AtomicSwapEngine::restore(w.custody.clone(), 1, swaps.clone()).is_none());
    assert!(AtomicSwapEngine::restore(w.custody.clone(), 0, vec![]).is_none());
    let mut twice = swaps.clone();
    twice.push(swaps[0].clone());
    assert!(AtomicSwapEngine::restore(w.custody.clone(), 9, twice).is_none());
    let mut unsettled = swaps.clone();
    unsettled[0].state = SwapState::Pending;
    assert!(AtomicSwapEngine::restore(w.custody.clone(), 9, unsettled).is_none());
    let sales: Vec<_> = s.sales.records().iter().cloned().collect();
    let store = SaleTransactionStore::restore(sales.clone()).unwrap();
    assert_eq!(store.get(1).unwrap().price, 10000);
    assert_eq!(store.next_id(), Some(2));
    let mut misnumbered = sales.clone();
    misnumbered[0].transaction_id = 2;
    assert!(SaleTransactionStore::restore(misnumbered).is_none());
    let mut store = SaleTransactionStore::new();
    let mut stray = sales[0].clone();
    stray.transaction_id = 5;
    assert_eq!(store.put(stray.clone()), Err(SettlementError::InvalidState));
    assert_eq!(store.update(stray), Err(SettlementError::NotFound));
    assert_eq!(store.put(sales[0].clone()), Ok(()));
}

#[test]
fn trades_and_bundles_are_cancelled_by_those_who_made_them() {
    let w = world();
    let mut s = settlement(&w);
    let items = vec![NFTItem { contract: w.nft.clone(), token_id: 1 }];
    s.create_trade(100, &w.seller, None, items.clone(), vec![], 50).unwrap();
    s.create_bundle(100, &w.seller, items.clone(), 500, w.currency.clone(), 50).unwrap();
    assert_eq!(s.cancel_trade(2, &w.seller), Err(SettlementError::NotFound));
    assert_eq!(s.cancel_trade(1, &w.buyer), Err(SettlementError::Unauthorized));
    assert_eq!(s.cancel_bundle(2, &w.seller), Err(SettlementError::NotFound));
    assert_eq!(s.cancel_bundle(1, &w.buyer), Err(SettlementError::Unauthorized));
    s.guard.enter(&w.seller, Operation::CancelTransaction).unwrap();
    assert_eq!(s.cancel_trade(1, &w.seller), Err(SettlementError::Reentrant));
    assert_eq!(s.cancel_bundle(1, &w.seller), Err(SettlementError::Reentrant));
    s.guard.exit(&w.seller, Operation::CancelTransaction);
    assert_eq!(s.trades.get(1).unwrap().state, TransactionState::Pending);
    assert_eq!(s.bundles.get(1).unwrap().state, TransactionState::Pending);
    assert_eq!(s.cancel_trade(1, &w.seller), Ok(()));
    assert_eq!(s.cancel_bundle(1, &w.seller), Ok(()));
    assert_eq!(s.trades.get(1).unwrap().state, TransactionState::Cancelled);
    assert_eq!(s.bundles.get(1).unwrap().state, TransactionState::Cancelled);
    assert_eq!(s.cancel_trade(1, &w.seller), Err(SettlementError::InvalidState));
    assert_eq!(s.cancel_bundle(1, &w.seller), Err(SettlementError::InvalidState));
    assert_eq!(s.accept_trade(1, &w.buyer, 120), Err(SettlementError::InvalidState));
    s.create_trade(100, &w.seller, None, items, vec![], 50).unwrap();
    s.accept_trade(2, &w.buyer, 120).unwrap();
    assert_eq!(s.cancel_trade(2, &w.seller), Err(SettlementError::InvalidState));
}

#[test]
fn whole_state_survives_being_taken_apart_and_restored() {
    let w = world();
    let mut s = core_with_sale(&w);
    fund(&w, &mut s);
    let items = vec![NFTItem { contract: w.nft.clone(), token_id: 1 }];
    s.create_trade(100, &w.seller, None, items.clone(), vec![], 50).unwrap();
    s.create_bundle(100, &w.seller, items, 500, w.currency.clone(), 50).unwrap();
    s.fees.record_volume(&w.buyer, 77).unwrap();
    s.fees.collect_platform_fee(5, &w.currency, &w.buyer, Ok(())).unwrap();
    s.guard.enter(&w.buyer, Operation::ExecuteSale).unwrap();
    let config = s.fees.config().unwrap();
    let fee_config = FeeConfig {
        platform_fee_bps: config.platform_fee_bps,
        minimum_fee: config.minimum_fee,
        maximum_fee: config.maximum_fee,
        fee_recipient: config.fee_recipient.clone(),
        dynamic_fee_enabled: config.dynamic_fee_enabled,
        volume_discounts: config.volume_discounts.clone(),
        vip_exemptions: config.vip_exemptions.clone(),
    };
    let mut again = MarketplaceSettlement {
        admin: AdminRegistry::restore(s.admin.get().cloned()),
        fees: FeeManager::restore(
            Some(fee_config),
            s.fees.accumulated().iter().cloned().collect(),
            s.fees.volumes().iter().cloned().collect(),
        ),
        royalties: nftopia::marketplace_settlement::royalty_distributor::RoyaltyDistributor::restore(
            s.royalties.records().iter().cloned().collect(),
        )
        .unwrap(),
        swaps: AtomicSwapEngine::restore(
            s.swaps.custody().clone(),
            s.swaps.next_swap(),
            s.swaps.swaps().iter().cloned().collect(),
        )
        .unwrap(),
        sales: SaleTransactionStore::restore(s.sales.records().iter().cloned().collect()).unwrap(),
        trades: TradeTransactionStore::restore(s.trades.records().iter().cloned().collect()).unwrap(),
        bundles: BundleTransactionStore::restore(s.bundles.records().iter().cloned().collect()).unwrap(),
        guard: ReentrancyGuard::restore(s.guard.markers().iter().cloned().collect()),
    };
    assert_eq!(again.admin.get().unwrap().admin, w.admin);
    assert_eq!(again.get_user_volume(&w.buyer), Ok(77));
    assert_eq!(again.get_accumulated_fees(&w.currency), 5);
    assert_eq!(again.trades.get(1).unwrap().initiator, w.seller);
    assert_eq!(again.bundles.get(1).unwrap().total_price, 500);
    assert_eq!(again.trades.next_id(), Some(2));
    let r = again.execute_sale(1, &w.buyer, 10000, 1100, Ok(()), Ok(()), &vec![true], Ok(()));
    assert!(matches!(r, Err(SettlementError::Reentrant)));
    again.guard.exit(&w.buyer, Operation::ExecuteSale);
    let r = again.execute_sale(1, &w.buyer, 10000, 1100, Ok(()), Ok(()), &vec![true], Ok(()));
    assert!(r.is_ok());
    assert_eq!(again.get_accumulated_fees(&w.currency), 1005);
    let mut trades: Vec<_> = s.trades.records().iter().cloned().collect();
    trades[0].trade_id = 3;
    assert!(TradeTransactionStore::restore(trades).is_none());
    let mut bundles: Vec<_> = s.bundles.records().iter().cloned().collect();
    bundles[0].bundle_id = 0;
    assert!(BundleTransactionStore::restore(bundles).is_none());
}

#[test]
fn sale_whose_swap_is_ready_is_executed_as_the_swap_stands() {
    let w = world();
    let mut s = core_with_sale(&w);
    fund(&w, &mut s);
    s.swaps.deposit_to_escrow(1, &w.seller, &w.currency, 10000, false, 1020, Ok(())).unwrap();
    assert_eq!(s.swaps.get_swap_by_transaction(1).unwrap().state, SwapState::Ready);
    let plan = s.sale_settlement(1, &w.buyer, 10000, 1100).unwrap();
    assert!(plan.payment.is_none());
    assert_eq!(plan.swap_legs.len(), 2);
    match &plan.swap_legs[0] {
        AssetTransfer::Nft { from, to, token_id, .. } => {
            assert_eq!(from, &w.custody);
            assert_eq!(to, &w.seller);
            assert_eq!(*token_id, 7);
        }
        other => panic!("{:?}", other),
    }
    match &plan.swap_legs[1] {
        AssetTransfer::Tokens { from, to, amount, .. } => {
            assert_eq!(from, &w.custody);
            assert_eq!(to, &w.seller);
            assert_eq!(*amount, 10000);
        }
        other => panic!("{:?}", other),
    }
    let failed = s.execute_sale(1, &w.buyer, 10000, 1100, Ok(()), Err(SettlementError::InsufficientFunds), &vec![true], Ok(()));
    assert!(matches!(failed, Err(SettlementError::InsufficientFunds)));
    let result = s
        .execute_sale(1, &w.buyer, 10000, 1100, Err(SettlementError::InsufficientFunds), Ok(()), &vec![true], Ok(()))
        .unwrap();
    assert_eq!(result.transaction_id, 1);
    assert!(result.success);
    assert!(result.transferred_nft);
    assert!(result.transferred_payment);
    assert!(result.distributed_royalties);
    assert!(result.collected_platform_fee);
    assert_eq!(result.timestamp, 1100);
    let sale = s.get_sale(1).unwrap();
    assert_eq!(sale.state, TransactionState::Executed);
    assert_eq!(sale.buyer, Some(w.buyer.clone()));
    let swap = s.swaps.get_swap_by_transaction(1).unwrap();
    assert_eq!(swap.state, SwapState::Executed);
    assert_eq!(swap.executed_at, Some(1100));
    assert_eq!(swap.buyer_escrow[0].holder, w.seller);
    assert_eq!(swap.buyer_escrow[0].deposited_at, 1020);
    assert_eq!(s.get_accumulated_fees(&w.currency), 1000);
}

#[test]
fn sale_whose_buyer_leg_alone_is_funded_is_turned_down() {
    let w = world();
    let mut s = core_with_sale(&w);
    s.swaps.deposit_to_escrow(1, &w.seller, &w.currency, 10000, false, 1020, Ok(())).unwrap();
    assert_eq!(s.swaps.get_swap_by_transaction(1).unwrap().state, SwapState::BuyerFunded);
    let r = s.execute_sale(1, &w.buyer, 10000, 1100, Ok(()), Ok(()), &vec![true], Ok(()));
    assert!(matches!(r, Err(SettlementError::InvalidState)));
    assert!(matches!(s.sale_settlement(1, &w.buyer, 10000, 1100), Err(SettlementError::InvalidState)));
    assert_eq!(s.get_sale(1).unwrap().state, TransactionState::Pending);
}

#[test]
fn traded_volume_is_held_at_the_largest_amount() {
    let w = world();
    let mut s = core_with_sale(&w);
    fund(&w, &mut s);
    s.fees.record_volume(&w.buyer, i128::MAX).unwrap();
    s.execute_sale(1, &w.buyer, 10000, 1100, Ok(()), Ok(()), &vec![true], Ok(())).unwrap();
    assert_eq!(s.get_user_volume(&w.buyer), Ok(i128::MAX));
    assert_eq!(s.get_user_volume(&w.seller), Ok(10000));
    s.fees.record_trade(&w.seller, &w.creator, -5);
    assert_eq!(s.get_user_volume(&w.seller), Ok(10000));
    assert_eq!(s.get_user_volume(&w.creator), Ok(0));
    s.fees.record_trade(&w.seller, &w.creator, 5);
    assert_eq!(s.get_user_volume(&w.seller), Ok(10005));
    assert_eq!(s.get_user_volume(&w.creator), Ok(5));
}

#[test]
fn transfers_of_a_sale_are_attempted_in_order_and_payouts_never_stop_the_rest() {
    let w = world();
    let mut s = core_with_sale(&w);
    fund(&w, &mut s);
    let plan = s.sale_settlement(1, &w.buyer, 10000, 1100).unwrap();
    let mut outcomes: Vec<Result<(), SettlementError>> = Vec::new();
    let mut amounts = Vec::new();
    while let Some(order) = plan.next_transfer(&outcomes) {
        let done = match order {
            AssetTransfer::Tokens { amount, .. } => {
                amounts.push(*amount);
                if *amount == 500 {
                    Err(SettlementError::InsufficientFunds)
                } else {
                    Ok(())
                }
            }
            AssetTransfer::Nft { token_id, .. } => {
                amounts.push(*token_id as i128);
                Ok(())
            }
        };
        outcomes.push(done);
    }
    assert_eq!(amounts, vec![10000, 7, 10000, 500, 1000]);
    let report = plan.report(&outcomes);
    assert_eq!(report.paid, Ok(()));
    assert_eq!(report.transfers, Ok(()));
    assert_eq!(report.payouts_done, vec![false]);
    assert_eq!(report.fee_collected, Ok(()));
    let result = s
        .execute_sale(1, &w.buyer, 10000, 1100, report.paid, report.transfers, &report.payouts_done, report.fee_collected)
        .unwrap();
    assert!(result.success);
    assert!(!result.distributed_royalties);
    let stopped = vec![Ok(()), Err(SettlementError::InsufficientFunds)];
    assert!(plan.next_transfer(&stopped).is_none());
    let report = plan.report(&stopped);
    assert_eq!(report.paid, Ok(()));
    assert_eq!(report.transfers, Err(SettlementError::InsufficientFunds));
    assert_eq!(report.payouts_done, vec![false]);
    assert_eq!(report.fee_collected, Err(SettlementError::InvalidState));
    let unpaid = vec![Err(SettlementError::Unauthorized)];
    assert!(plan.next_transfer(&unpaid).is_none());
    let report = plan.report(&unpaid);
    assert_eq!(report.paid, Err(SettlementError::Unauthorized));
    assert_eq!(report.transfers, Err(SettlementError::InvalidState));
    let nothing: Vec<Result<(), SettlementError>> = Vec::new();
    assert_eq!(plan.report(&nothing).paid, Err(SettlementError::InvalidState));
}

#[test]
fn transfers_in_order_stop_at_the_first_failure() {
    let none: Vec<Result<(), SettlementError>> = vec![];
    assert_eq!(next_in_order(2, &none), Some(0));
    assert_eq!(next_in_order(0, &none), None);
    assert_eq!(result_in_order(0, &none), Ok(()));
    assert_eq!(result_in_order(2, &none), Err(SettlementError::InvalidState));
    let one = vec![Ok(())];
    assert_eq!(next_in_order(2, &one), Some(1));
    assert_eq!(result_in_order(2, &one), Err(SettlementError::InvalidState));
    let failed = vec![Err(SettlementError::InsufficientFunds)];
    assert_eq!(next_in_order(2, &failed), None);
    assert_eq!(result_in_order(2, &failed), Err(SettlementError::InsufficientFunds));
    let both = vec![Ok(()), Ok(())];
    assert_eq!(next_in_order(2, &both), None);
    assert_eq!(result_in_order(2, &both), Ok(()));
    let late = vec![Ok(()), Err(SettlementError::Unauthorized)];
    assert_eq!(result_in_order(2, &late), Err(SettlementError::Unauthorized));
    assert_eq!(result_in_order(1, &late), Ok(()));
}

#[test]
fn seller_who_buys_the_own_token_is_counted_twice() {
    let w = world();
    let mut s = core_with_sale(&w);
    fund(&w, &mut s);
    s.execute_sale(1, &w.seller, 10000, 1100, Ok(()), Ok(()), &vec![true], Ok(())).unwrap();
    assert_eq!(s.get_user_volume(&w.seller), Ok(20000));
}
