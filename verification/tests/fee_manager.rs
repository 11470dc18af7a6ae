use nftopia::marketplace_settlement::error::SettlementError;
use nftopia::marketplace_settlement::fee_manager::FeeManager;
use nftopia::marketplace_settlement::settlement_core::AdminRegistry;
use nftopia::marketplace_settlement::types::{
    AdminConfig, Asset, AssetTransfer, FeeConfig, VolumeTier,
};
use soroban_sdk::testutils::Address as _;
use soroban_sdk::{Address, Env, Symbol};

fn registry(admin: &Address) -> AdminRegistry {
    AdminRegistry::restore(Some(AdminConfig {
        admin: admin.clone(),
        emergency_withdrawal_enabled: true,
        max_transaction_duration: 2592000,
        max_auction_duration: 604800,
        min_bid_increment_bps: 100,
        max_royalty_percentage: 5000,
        dispute_cooling_period: 86400,
        arbitration_quorum: 3,
    }))
}

fn config(recipient: &Address, vip: Vec<Address>) -> FeeConfig {
    FeeConfig {
        platform_fee_bps: 250,
        minimum_fee: 1000,
        maximum_fee: 1000000,
        fee_recipient: recipient.clone(),
        dynamic_fee_enabled: true,
        volume_discounts: vec![
            VolumeTier { min_volume: 1000000, fee_discount_bps: 50 },
            VolumeTier { min_volume: 10000000, fee_discount_bps: 100 },
        ],
        vip_exemptions: vip,
    }
}

#[test]
fn fee_without_configuration_is_not_found() {
    let env = Env::default();
    let payer = Address::generate(&env);
    let fees = FeeManager::new();
    assert_eq!(fees.calculate_fee(10000, &payer), Err(SettlementError::NotFound));
    assert!(fees.config().is_none());
}

#[test]
fn fee_is_held_between_its_bounds() {
    let env = Env::default();
    let payer = Address::generate(&env);
    let mut fees = FeeManager::new();
    fees.update_fee_config(config(&payer, vec![]), &payer, &registry(&payer)).unwrap();
    assert_eq!(fees.calculate_fee(10000, &payer), Ok(1000));
    assert_eq!(fees.calculate_fee(40000, &payer), Ok(1000));
    assert_eq!(fees.calculate_fee(1000000, &payer), Ok(25000));
    assert_eq!(fees.calculate_fee(100000000, &payer), Ok(1000000));
    assert_eq!(fees.calculate_fee(-5, &payer), Ok(1000));
}

#[test]
fn volume_lowers_the_fee_and_exemption_waives_it() {
    let env = Env::default();
    let payer = Address::generate(&env);
    let vip = Address::generate(&env);
    let mut fees = FeeManager::new();
    fees.update_fee_config(config(&payer, vec![vip.clone()]), &payer, &registry(&payer)).unwrap();
    assert_eq!(fees.get_user_volume(&payer), Ok(0));
    fees.record_volume(&payer, 999999).unwrap();
    assert_eq!(fees.calculate_fee(1000000, &payer), Ok(25000));
    fees.record_volume(&payer, 1).unwrap();
    assert_eq!(fees.get_user_volume(&payer), Ok(1000000));
    assert_eq!(fees.calculate_fee(1000000, &payer), Ok(20000));
    fees.record_volume(&payer, 9000000).unwrap();
    assert_eq!(fees.calculate_fee(1000000, &payer), Ok(15000));
    assert_eq!(fees.calculate_fee(1000000, &vip), Ok(0));
    assert_eq!(fees.record_volume(&payer, -1), Err(SettlementError::InvalidAmount));
    assert_eq!(fees.record_volume(&payer, i128::MAX), Err(SettlementError::InvalidAmount));
    assert_eq!(fees.get_user_volume(&payer), Ok(10000000));
    let mut flat = config(&payer, vec![]);
    flat.dynamic_fee_enabled = false;
    fees.update_fee_config(flat, &payer, &registry(&payer)).unwrap();
    assert_eq!(fees.calculate_fee(1000000, &payer), Ok(25000));
    let mut steep = config(&payer, vec![]);
    steep.platform_fee_bps = 80;
    steep.minimum_fee = 0;
    fees.update_fee_config(steep, &payer, &registry(&payer)).unwrap();
    assert_eq!(fees.calculate_fee(1000000, &payer), Ok(0));
}

#[test]
fn unacceptable_configuration_is_rejected() {
    let env = Env::default();
    let payer = Address::generate(&env);
    let mut fees = FeeManager::new();
    let mut high = config(&payer, vec![]);
    high.platform_fee_bps = 10001;
    assert_eq!(fees.update_fee_config(high, &payer, &registry(&payer)), Err(SettlementError::InvalidAmount));
    let mut crossed = config(&payer, vec![]);
    crossed.minimum_fee = 5;
    crossed.maximum_fee = 4;
    assert_eq!(fees.update_fee_config(crossed, &payer, &registry(&payer)), Err(SettlementError::InvalidAmount));
    let mut negative = config(&payer, vec![]);
    negative.minimum_fee = -1;
    assert_eq!(fees.update_fee_config(negative, &payer, &registry(&payer)), Err(SettlementError::InvalidAmount));
    assert!(fees.config().is_none());
    let mut whole = config(&payer, vec![]);
    whole.platform_fee_bps = 10000;
    assert_eq!(fees.update_fee_config(whole, &payer, &registry(&payer)), Ok(()));
    assert_eq!(fees.config().unwrap().platform_fee_bps, 10000);
}

#[test]
fn collected_fees_add_up_per_asset_and_are_withdrawn_whole() {
    let env = Env::default();
    let payer = Address::generate(&env);
    let custody = Address::generate(&env);
    let recipient = Address::generate(&env);
    let usdc = Asset { contract: Address::generate(&env), symbol: Symbol::new(&env, "USDC") };
    let xlm = Asset { contract: Address::generate(&env), symbol: Symbol::new(&env, "XLM") };
    let same_contract = Asset { contract: usdc.contract.clone(), symbol: Symbol::new(&env, "OTHER") };
    let mut fees = FeeManager::new();
    assert_eq!(fees.get_accumulated_fees(&usdc), 0);
    assert_eq!(fees.collect_platform_fee(100, &usdc, &payer, Ok(())), Ok(()));
    assert_eq!(fees.collect_platform_fee(50, &xlm, &payer, Ok(())), Ok(()));
    assert_eq!(fees.collect_platform_fee(25, &usdc, &payer, Ok(())), Ok(()));
    assert_eq!(fees.get_accumulated_fees(&usdc), 125);
    assert_eq!(fees.get_accumulated_fees(&xlm), 50);
    assert_eq!(fees.get_accumulated_fees(&same_contract), 0);
    assert_eq!(fees.collect_platform_fee(-1, &usdc, &payer, Ok(())), Err(SettlementError::InvalidAmount));
    assert_eq!(
        fees.collect_platform_fee(1, &usdc, &payer, Err(SettlementError::InsufficientFunds)),
        Err(SettlementError::InsufficientFunds)
    );
    assert_eq!(
        fees.collect_platform_fee(i128::MAX, &usdc, &payer, Ok(())),
        Err(SettlementError::InvalidAmount)
    );
    assert_eq!(fees.get_accumulated_fees(&usdc), 125);
    match FeeManager::fee_transfer(100, &usdc, &payer, &custody) {
        AssetTransfer::Tokens { contract, from, to, amount } => {
            assert_eq!(contract, usdc.contract);
            assert_eq!(from, payer);
            assert_eq!(to, custody);
            assert_eq!(amount, 100);
        }
        other => panic!("{:?}", other),
    }
    match fees.withdrawal_transfer(&usdc, &recipient, &custody, &payer, &registry(&payer)).unwrap() {
        AssetTransfer::Tokens { contract, from, to, amount } => {
            assert_eq!(contract, usdc.contract);
            assert_eq!(from, custody);
            assert_eq!(to, recipient);
            assert_eq!(amount, 125);
        }
        other => panic!("{:?}", other),
    }
    assert_eq!(
        fees.withdraw_platform_fees(&usdc, &payer, &registry(&payer), Err(SettlementError::InsufficientFunds)),
        Err(SettlementError::InsufficientFunds)
    );
    assert_eq!(fees.get_accumulated_fees(&usdc), 125);
    assert_eq!(fees.withdraw_platform_fees(&usdc, &payer, &registry(&payer), Ok(())), Ok(125));
    assert_eq!(fees.get_accumulated_fees(&usdc), 0);
    assert_eq!(fees.get_accumulated_fees(&xlm), 50);
    assert_eq!(fees.withdraw_platform_fees(&same_contract, &payer, &registry(&payer), Ok(())), Ok(0));
    assert_eq!(fees.accumulated().len(), 2);
}

#[test]
fn only_the_administrator_configures_and_withdraws() {
    let env = Env::default();
    let admin = Address::generate(&env);
    let stranger = Address::generate(&env);
    let custody = Address::generate(&env);
    let usdc = Asset { contract: Address::generate(&env), symbol: Symbol::new(&env, "USDC") };
    let mut fees = FeeManager::new();
    fees.collect_platform_fee(100, &usdc, &stranger, Ok(())).unwrap();
    assert_eq!(
        fees.update_fee_config(config(&admin, vec![]), &stranger, &registry(&admin)),
        Err(SettlementError::Unauthorized)
    );
    assert_eq!(
        fees.update_fee_config(config(&admin, vec![]), &admin, &AdminRegistry::new()),
        Err(SettlementError::Unauthorized)
    );
    assert!(fees.config().is_none());
    assert!(matches!(
        fees.withdrawal_transfer(&usdc, &stranger, &custody, &stranger, &registry(&admin)),
        Err(SettlementError::Unauthorized)
    ));
    assert_eq!(
        fees.withdraw_platform_fees(&usdc, &stranger, &registry(&admin), Ok(())),
        Err(SettlementError::Unauthorized)
    );
    assert_eq!(fees.get_accumulated_fees(&usdc), 100);
    assert_eq!(fees.update_fee_config(config(&admin, vec![]), &admin, &registry(&admin)), Ok(()));
    assert_eq!(fees.withdraw_platform_fees(&usdc, &admin, &registry(&admin), Ok(())), Ok(100));
}
