use nftopia::marketplace_settlement::error::SettlementError;
use nftopia::marketplace_settlement::royalty_distributor::{
    minimum_price, RoyaltyDistributor, RoyaltyEnforcer,
};
use nftopia::marketplace_settlement::types::{Asset, AssetTransfer, RoyaltyDistribution};
use soroban_sdk::testutils::Address as _;
use soroban_sdk::{Address, Env, Symbol};

fn distribution(env: &Env, creator: &Address, total: i128, amounts: &[(Address, i128)]) -> RoyaltyDistribution {
    let mut map: soroban_sdk::Map<Address, i128> = soroban_sdk::Map::new(env);
    for (who, amount) in amounts {
        map.set(who.clone(), *amount);
    }
    RoyaltyDistribution {
        creator_address: creator.clone(),
        creator_percentage: 500,
        seller_percentage: 9500,
        platform_percentage: 500,
        total_amount: total,
        amounts: map,
    }
}

#[test]
fn royalty_of_five_percent_on_ten_thousand() {
    let env = Env::default();
    let nft = Address::generate(&env);
    let creator = Address::generate(&env);
    let mut distributor = RoyaltyDistributor::new();
    distributor.set_royalty_info(&nft, 7, &creator, 500, &creator, 50).unwrap();
    let d = distributor.calculate_royalties(&nft, 7, 10000).unwrap();
    assert_eq!(d.creator_address, creator);
    assert_eq!(d.creator_percentage, 500);
    assert_eq!(d.seller_percentage, 9500);
    assert_eq!(d.platform_percentage, 500);
    assert_eq!(d.total_amount, 10000);
    assert_eq!(d.amounts.len(), 1);
    assert_eq!(d.amounts.get(creator.clone()), Some(500));
    let asset = Asset { contract: Address::generate(&env), symbol: Symbol::new(&env, "USDC") };
    let result = RoyaltyDistributor::distribute_royalties(3, &d, &asset, 77, &vec![true]).unwrap();
    assert_eq!(result.transaction_id, 3);
    assert_eq!(result.total_amount, 10000);
    assert_eq!(result.creator_amount, 500);
    assert_eq!(result.seller_amount, 9500);
    assert_eq!(result.platform_amount, 500);
    assert_eq!(result.distributed_amount, 500);
    assert!(result.distribution_success);
    assert_eq!(result.timestamp, 77);
}

#[test]
fn royalty_of_a_token_without_record_is_not_found() {
    let env = Env::default();
    let nft = Address::generate(&env);
    let creator = Address::generate(&env);
    let mut distributor = RoyaltyDistributor::new();
    distributor.set_royalty_info(&nft, 7, &creator, 500, &creator, 50).unwrap();
    assert!(matches!(distributor.calculate_royalties(&nft, 8, 10000), Err(SettlementError::NotFound)));
    let other = Address::generate(&env);
    assert!(matches!(distributor.calculate_royalties(&other, 7, 10000), Err(SettlementError::NotFound)));
    assert!(matches!(distributor.get_royalty_info(&nft, 8), Err(SettlementError::NotFound)));
    assert!(distributor.get_royalty_history(&nft, 8).is_empty());
    let history = distributor.get_royalty_history(&nft, 7);
    assert_eq!(history.len(), 1);
    assert_eq!(history[0].royalty_percentage, 500);
    assert_eq!(history[0].last_updated, 50);
}

#[test]
fn royalty_above_half_is_rejected_and_half_is_accepted() {
    let env = Env::default();
    let nft = Address::generate(&env);
    let creator = Address::generate(&env);
    let mut distributor = RoyaltyDistributor::new();
    assert_eq!(
        distributor.set_royalty_info(&nft, 1, &creator, 5001, &creator, 10),
        Err(SettlementError::InvalidRoyaltyPercentage)
    );
    assert!(distributor.records().is_empty());
    assert_eq!(distributor.set_royalty_info(&nft, 1, &creator, 5000, &creator, 10), Ok(()));
    let info = distributor.get_royalty_info(&nft, 1).unwrap();
    assert_eq!(info.royalty_percentage, 5000);
    assert_eq!(info.creator, creator);
    assert_eq!(info.nft_contract, nft);
    assert_eq!(info.token_id, 1);
    assert_eq!(info.last_updated, 10);
}

#[test]
fn one_record_per_token_and_only_the_creator_replaces_it() {
    let env = Env::default();
    let nft = Address::generate(&env);
    let creator = Address::generate(&env);
    let stranger = Address::generate(&env);
    let mut distributor = RoyaltyDistributor::new();
    distributor.set_royalty_info(&nft, 1, &creator, 100, &stranger, 10).unwrap();
    distributor.set_royalty_info(&nft, 2, &creator, 200, &creator, 11).unwrap();
    assert_eq!(
        distributor.set_royalty_info(&nft, 1, &stranger, 300, &stranger, 12),
        Err(SettlementError::Unauthorized)
    );
    distributor.set_royalty_info(&nft, 1, &creator, 300, &creator, 13).unwrap();
    assert_eq!(distributor.records().len(), 2);
    assert_eq!(distributor.get_royalty_info(&nft, 1).unwrap().royalty_percentage, 300);
    assert_eq!(distributor.get_royalty_info(&nft, 1).unwrap().last_updated, 13);
    assert_eq!(distributor.get_royalty_info(&nft, 2).unwrap().royalty_percentage, 200);
}

#[test]
fn update_is_for_the_creator_and_within_the_ceiling() {
    let env = Env::default();
    let nft = Address::generate(&env);
    let creator = Address::generate(&env);
    let stranger = Address::generate(&env);
    let mut distributor = RoyaltyDistributor::new();
    assert_eq!(
        distributor.update_royalty_percentage(&nft, 1, 100, &creator, 5),
        Err(SettlementError::NotFound)
    );
    distributor.set_royalty_info(&nft, 1, &creator, 100, &creator, 10).unwrap();
    assert_eq!(
        distributor.update_royalty_percentage(&nft, 1, 200, &stranger, 20),
        Err(SettlementError::Unauthorized)
    );
    assert_eq!(
        distributor.update_royalty_percentage(&nft, 1, 5001, &creator, 20),
        Err(SettlementError::InvalidRoyaltyPercentage)
    );
    assert_eq!(distributor.get_royalty_info(&nft, 1).unwrap().royalty_percentage, 100);
    assert_eq!(distributor.update_royalty_percentage(&nft, 1, 5000, &creator, 20), Ok(()));
    let info = distributor.get_royalty_info(&nft, 1).unwrap();
    assert_eq!(info.royalty_percentage, 5000);
    assert_eq!(info.last_updated, 20);
    assert_eq!(info.creator, creator);
}

#[test]
fn validation_accepts_amounts_that_add_up() {
    let env = Env::default();
    let creator = Address::generate(&env);
    let seller = Address::generate(&env);
    let platform = Address::generate(&env);
    let d = distribution(
        &env,
        &creator,
        10000,
        &[(creator.clone(), 500), (seller.clone(), 9000), (platform.clone(), 500)],
    );
    assert_eq!(RoyaltyDistributor::validate_royalty_distribution(&d), Ok(()));
}

#[test]
fn validation_rejects_amounts_that_do_not_add_up() {
    let env = Env::default();
    let creator = Address::generate(&env);
    let seller = Address::generate(&env);
    let short = distribution(&env, &creator, 10000, &[(creator.clone(), 500), (seller.clone(), 9000)]);
    assert_eq!(
        RoyaltyDistributor::validate_royalty_distribution(&short),
        Err(SettlementError::InvalidAmount)
    );
    let empty = distribution(&env, &creator, 1, &[]);
    assert_eq!(
        RoyaltyDistributor::validate_royalty_distribution(&empty),
        Err(SettlementError::InvalidAmount)
    );
    let nothing = distribution(&env, &creator, 0, &[]);
    assert_eq!(RoyaltyDistributor::validate_royalty_distribution(&nothing), Ok(()));
    let single = RoyaltyDistributor::new();
    assert!(single.records().is_empty());
}

#[test]
fn validation_rejects_a_sum_out_of_range() {
    let env = Env::default();
    let creator = Address::generate(&env);
    let seller = Address::generate(&env);
    let d = distribution(
        &env,
        &creator,
        i128::MAX,
        &[(creator.clone(), i128::MAX), (seller.clone(), 1)],
    );
    assert_eq!(
        RoyaltyDistributor::validate_royalty_distribution(&d),
        Err(SettlementError::InvalidAmount)
    );
}

#[test]
fn computed_split_of_a_single_sale_validates_only_for_full_royalty() {
    let env = Env::default();
    let nft = Address::generate(&env);
    let creator = Address::generate(&env);
    let mut distributor = RoyaltyDistributor::new();
    distributor.set_royalty_info(&nft, 7, &creator, 500, &creator, 50).unwrap();
    let d = distributor.calculate_royalties(&nft, 7, 10000).unwrap();
    assert_eq!(
        RoyaltyDistributor::validate_royalty_distribution(&d),
        Err(SettlementError::InvalidAmount)
    );
}

#[test]
fn failed_payout_is_recorded_and_does_not_abort() {
    let env = Env::default();
    let creator = Address::generate(&env);
    let seller = Address::generate(&env);
    let platform = Address::generate(&env);
    let custody = Address::generate(&env);
    let asset = Asset { contract: Address::generate(&env), symbol: Symbol::new(&env, "USDC") };
    let d = distribution(
        &env,
        &creator,
        10000,
        &[(creator.clone(), 500), (seller.clone(), 9000), (platform.clone(), 500)],
    );
    let transfers = RoyaltyDistributor::payout_transfers(&d, &asset, &custody).unwrap();
    assert_eq!(transfers.len(), 3);
    let mut outcomes = Vec::new();
    let mut expected: i128 = 0;
    let mut paid_to = Vec::new();
    for t in transfers.iter() {
        match t {
            AssetTransfer::Tokens { contract, from, to, amount } => {
                assert_eq!(contract, &asset.contract);
                assert_eq!(from, &custody);
                assert_eq!(d.amounts.get(to.clone()), Some(*amount));
                let ok = *to != seller;
                if ok {
                    expected += *amount;
                }
                outcomes.push(ok);
                paid_to.push(to.clone());
            }
            other => panic!("{:?}", other),
        }
    }
    assert!(paid_to.contains(&creator) && paid_to.contains(&seller) && paid_to.contains(&platform));
    let result = RoyaltyDistributor::distribute_royalties(9, &d, &asset, 123, &outcomes).unwrap();
    assert!(!result.distribution_success);
    assert_eq!(expected, 1000);
    assert_eq!(result.distributed_amount, 1000);
    assert_eq!(result.creator_amount, 500);
    assert_eq!(result.seller_amount, 9500);
    assert_eq!(result.platform_amount, 500);
    assert_eq!(result.total_amount, 10000);
    let all = RoyaltyDistributor::distribute_royalties(9, &d, &asset, 123, &vec![true, true, true]).unwrap();
    assert!(all.distribution_success);
    assert_eq!(all.distributed_amount, 10000);
    let event = RoyaltyDistributor::distribution_event(&d, &all);
    assert_eq!(event.transaction_id, 9);
    assert_eq!(event.creator, creator);
    assert_eq!(event.creator_amount, 500);
    assert_eq!(event.total_amount, 10000);
    assert_eq!(event.timestamp, 123);
}

#[test]
fn outcomes_must_match_the_recipients() {
    let env = Env::default();
    let creator = Address::generate(&env);
    let asset = Asset { contract: Address::generate(&env), symbol: Symbol::new(&env, "USDC") };
    let d = distribution(&env, &creator, 500, &[(creator.clone(), 500)]);
    let short = RoyaltyDistributor::distribute_royalties(1, &d, &asset, 5, &vec![]);
    assert!(matches!(short, Err(SettlementError::InvalidAmount)));
    let long = RoyaltyDistributor::distribute_royalties(1, &d, &asset, 5, &vec![true, true]);
    assert!(matches!(long, Err(SettlementError::InvalidAmount)));
    let absent = distribution(&env, &Address::generate(&env), 500, &[(creator.clone(), 500)]);
    let r = RoyaltyDistributor::distribute_royalties(1, &absent, &asset, 5, &vec![true]).unwrap();
    assert_eq!(r.creator_amount, 0);
    assert_eq!(r.distributed_amount, 500);
}

#[test]
fn minimum_price_and_back() {
    let env = Env::default();
    let nft = Address::generate(&env);
    let creator = Address::generate(&env);
    let mut distributor = RoyaltyDistributor::new();
    distributor.set_royalty_info(&nft, 7, &creator, 500, &creator, 50).unwrap();
    let price = RoyaltyEnforcer::calculate_minimum_price(&distributor, &nft, 7, 100).unwrap();
    assert_eq!(price, 105);
    let d = distributor.calculate_royalties(&nft, 7, price).unwrap();
    let royalty = d.amounts.get(creator.clone()).unwrap();
    assert_eq!(royalty, 5);
    assert_eq!(price - royalty, 100);
    assert!(matches!(
        RoyaltyEnforcer::calculate_minimum_price(&distributor, &nft, 8, 100),
        Err(SettlementError::NotFound)
    ));
    assert_eq!(
        RoyaltyEnforcer::calculate_minimum_price(&distributor, &nft, 7, i128::MAX),
        Err(SettlementError::InvalidAmount)
    );
}

#[test]
fn minimum_price_round_trip_on_many_values() {
    for bps in [0u64, 1, 250, 500, 3333, 4999, 5000] {
        for net in [-1_000_003i128, -10000, -1, 0, 1, 2, 99, 100, 9999, 10000, 123_456_789] {
            let price = minimum_price(net, bps).unwrap();
            let royalty = nftopia::marketplace_settlement::math_utils::calculate_percentage(price, bps);
            assert_eq!(price - royalty, net);
        }
    }
}

#[test]
fn minimum_price_fails_for_a_royalty_of_the_whole_price() {
    assert_eq!(minimum_price(100, 10000), Err(SettlementError::InvalidAmount));
    assert_eq!(minimum_price(100, 20000), Err(SettlementError::InvalidAmount));
    assert_eq!(minimum_price(100, 9999), Ok(1_000_000));
    assert_eq!(minimum_price(i128::MAX / 10000 + 1, 0), Err(SettlementError::InvalidAmount));
    assert_eq!(minimum_price(i128::MAX / 10000, 0), Ok(i128::MAX / 10000));
}

#[test]
fn enforcement_needs_a_price_that_covers_the_royalty() {
    let env = Env::default();
    let nft = Address::generate(&env);
    let creator = Address::generate(&env);
    let asset = Asset { contract: Address::generate(&env), symbol: Symbol::new(&env, "USDC") };
    let mut distributor = RoyaltyDistributor::new();
    distributor.set_royalty_info(&nft, 7, &creator, 500, &creator, 50).unwrap();
    assert_eq!(RoyaltyEnforcer::enforce_royalty_payment(&distributor, &nft, 7, 10000, &asset), Ok(()));
    assert_eq!(RoyaltyEnforcer::enforce_royalty_payment(&distributor, &nft, 7, 0, &asset), Ok(()));
    assert_eq!(
        RoyaltyEnforcer::enforce_royalty_payment(&distributor, &nft, 7, -100, &asset),
        Err(SettlementError::InsufficientFunds)
    );
    assert_eq!(
        RoyaltyEnforcer::enforce_royalty_payment(&distributor, &nft, 9, 10000, &asset),
        Err(SettlementError::NotFound)
    );
}

#[test]
fn bundle_price_is_split_over_creators_seller_and_platform() {
    let env = Env::default();
    let nft = Address::generate(&env);
    let a = Address::generate(&env);
    let b = Address::generate(&env);
    let seller = Address::generate(&env);
    let platform = Address::generate(&env);
    let mut distributor = RoyaltyDistributor::new();
    distributor.set_royalty_info(&nft, 1, &a, 500, &a, 1).unwrap();
    distributor.set_royalty_info(&nft, 2, &b, 1000, &b, 1).unwrap();
    distributor.set_royalty_info(&nft, 3, &a, 500, &a, 1).unwrap();
    let d = distributor
        .calculate_complex_royalties(
            &vec![nft.clone(), nft.clone(), nft.clone()],
            &vec![1, 2, 3],
            30000,
            &seller,
            &platform,
            &seller,
        )
        .unwrap();
    assert_eq!(d.total_amount, 30000);
    assert_eq!(d.creator_percentage, 0);
    assert_eq!(d.seller_percentage, 9500);
    assert_eq!(d.platform_percentage, 500);
    assert_eq!(d.creator_address, seller);
    assert_eq!(d.amounts.len(), 4);
    assert_eq!(d.amounts.get(a.clone()), Some(1000));
    assert_eq!(d.amounts.get(b.clone()), Some(1000));
    assert_eq!(d.amounts.get(platform.clone()), Some(1400));
    assert_eq!(d.amounts.get(seller.clone()), Some(26600));
    assert_eq!(RoyaltyDistributor::validate_royalty_distribution(&d), Ok(()));
}

#[test]
fn bundle_split_adds_up_when_the_seller_is_a_creator() {
    let env = Env::default();
    let nft = Address::generate(&env);
    let seller = Address::generate(&env);
    let platform = Address::generate(&env);
    let mut distributor = RoyaltyDistributor::new();
    distributor.set_royalty_info(&nft, 1, &seller, 1000, &seller, 1).unwrap();
    let d = distributor
        .calculate_complex_royalties(&vec![nft.clone()], &vec![1], 10000, &seller, &platform, &seller)
        .unwrap();
    assert_eq!(d.amounts.len(), 2);
    assert_eq!(d.amounts.get(platform.clone()), Some(450));
    assert_eq!(d.amounts.get(seller.clone()), Some(9550));
    assert_eq!(RoyaltyDistributor::validate_royalty_distribution(&d), Ok(()));
}

#[test]
fn bundle_split_fails_on_lists_of_different_length_and_unknown_tokens() {
    let env = Env::default();
    let nft = Address::generate(&env);
    let a = Address::generate(&env);
    let seller = Address::generate(&env);
    let platform = Address::generate(&env);
    let mut distributor = RoyaltyDistributor::new();
    distributor.set_royalty_info(&nft, 1, &a, 500, &a, 1).unwrap();
    let r = distributor.calculate_complex_royalties(&vec![nft.clone()], &vec![1, 2], 100, &seller, &platform, &a);
    assert!(matches!(r, Err(SettlementError::InvalidAmount)));
    let r = distributor.calculate_complex_royalties(
        &vec![nft.clone(), nft.clone()],
        &vec![1, 2],
        100,
        &seller,
        &platform,
        &a,
    );
    assert!(matches!(r, Err(SettlementError::NotFound)));
    let empty = distributor
        .calculate_complex_royalties(&vec![], &vec![], 1000, &seller, &platform, &a)
        .unwrap();
    assert_eq!(empty.amounts.len(), 2);
    assert_eq!(empty.amounts.get(seller.clone()), Some(950));
    assert_eq!(empty.amounts.get(platform.clone()), Some(50));
}

#[test]
fn bulk_set_is_all_or_nothing() {
    let env = Env::default();
    let nft = Address::generate(&env);
    let creator = Address::generate(&env);
    let other = Address::generate(&env);
    let mut distributor = RoyaltyDistributor::new();
    distributor.set_royalty_info(&nft, 2, &other, 100, &other, 1).unwrap();
    let r = distributor.bulk_set_royalties(&nft, &vec![1, 2, 3], &creator, 700, &creator, 9);
    assert_eq!(r, Err(SettlementError::Unauthorized));
    assert_eq!(distributor.records().len(), 1);
    assert!(matches!(distributor.get_royalty_info(&nft, 1), Err(SettlementError::NotFound)));
    let r = distributor.bulk_set_royalties(&nft, &vec![1, 3], &creator, 5001, &creator, 9);
    assert_eq!(r, Err(SettlementError::InvalidRoyaltyPercentage));
    assert_eq!(distributor.records().len(), 1);
    let r = distributor.bulk_set_royalties(&nft, &vec![1, 3, 1], &creator, 700, &creator, 9);
    assert_eq!(r, Ok(()));
    assert_eq!(distributor.records().len(), 3);
    assert_eq!(distributor.get_royalty_info(&nft, 1).unwrap().royalty_percentage, 700);
    assert_eq!(distributor.get_royalty_info(&nft, 3).unwrap().creator, creator);
    assert_eq!(distributor.get_royalty_info(&nft, 2).unwrap().royalty_percentage, 100);
}

#[test]
fn restored_records_must_be_valid() {
    let env = Env::default();
    let nft = Address::generate(&env);
    let creator = Address::generate(&env);
    let mut distributor = RoyaltyDistributor::new();
    distributor.set_royalty_info(&nft, 1, &creator, 100, &creator, 1).unwrap();
    distributor.set_royalty_info(&nft, 2, &creator, 200, &creator, 1).unwrap();
    let records: Vec<_> = distributor.records().iter().cloned().collect();
    let again = RoyaltyDistributor::restore(records.clone()).unwrap();
    assert_eq!(again.get_royalty_info(&nft, 2).unwrap().royalty_percentage, 200);
    let mut twice = records.clone();
    twice.push(records[0].clone());
    assert!(RoyaltyDistributor::restore(twice).is_none());
    let mut high = records.clone();
    high[0].royalty_percentage = 5001;
    assert!(RoyaltyDistributor::restore(high).is_none());
}

#[test]
fn report_names_the_payouts_that_failed() {
    let env = Env::default();
    let creator = Address::generate(&env);
    let seller = Address::generate(&env);
    let d = distribution(&env, &creator, 800, &[(creator.clone(), 500), (seller.clone(), 300)]);
    let first = d.amounts.keys().get(0).unwrap();
    let legs = RoyaltyDistributor::payout_report(&d, &vec![true, false]).unwrap();
    assert_eq!(legs.len(), 2);
    assert_eq!(legs[0].recipient, first);
    assert_eq!(Some(legs[0].amount), d.amounts.get(first.clone()));
    assert!(legs[0].paid);
    assert!(!legs[1].paid);
    assert_ne!(legs[1].recipient, first);
    assert_eq!(legs[0].amount + legs[1].amount, 800);
    assert!(matches!(
        RoyaltyDistributor::payout_report(&d, &vec![true]),
        Err(SettlementError::InvalidAmount)
    ));
}

#[test]
fn payment_is_verified_only_when_all_was_paid() {
    let env = Env::default();
    let creator = Address::generate(&env);
    let seller = Address::generate(&env);
    let asset = Asset { contract: Address::generate(&env), symbol: Symbol::new(&env, "USDC") };
    let d = distribution(&env, &creator, 800, &[(creator.clone(), 500), (seller.clone(), 300)]);
    assert_eq!(RoyaltyDistributor::distribution_total(&d), Ok(800));
    let all = RoyaltyDistributor::distribute_royalties(4, &d, &asset, 9, &vec![true, true]).unwrap();
    let some = RoyaltyDistributor::distribute_royalties(4, &d, &asset, 9, &vec![true, false]).unwrap();
    assert_eq!(RoyaltyEnforcer::verify_royalty_payment(4, &d, &all), Ok(true));
    assert_eq!(RoyaltyEnforcer::verify_royalty_payment(4, &d, &some), Ok(false));
    assert_eq!(RoyaltyEnforcer::verify_royalty_payment(5, &d, &all), Ok(false));
    let other = distribution(&env, &creator, 801, &[(creator.clone(), 500), (seller.clone(), 300)]);
    assert_eq!(RoyaltyEnforcer::verify_royalty_payment(4, &other, &all), Ok(false));
    let huge = distribution(&env, &creator, 0, &[(creator.clone(), i128::MAX), (seller.clone(), i128::MAX)]);
    assert_eq!(
        RoyaltyEnforcer::verify_royalty_payment(4, &huge, &all),
        Err(SettlementError::InvalidAmount)
    );
    assert_eq!(RoyaltyDistributor::distribution_total(&huge), Err(SettlementError::InvalidAmount));
}
