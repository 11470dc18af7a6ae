use nftopia::collection_factory::collection::NftCollection;
use nftopia::collection_factory::error::ContractError;
use nftopia::collection_factory::factory::CollectionFactory;
use nftopia::collection_factory::types::CollectionConfig;
use soroban_sdk::testutils::Address as _;
use soroban_sdk::{Address, Env, String, Vec};

fn test_config(env: &Env, admin: &Address, max_supply: Option<u32>) -> CollectionConfig {
    CollectionConfig {
        name: String::from_str(env, "Test NFT"),
        symbol: String::from_str(env, "TNFT"),
        description: String::from_str(env, "Test Description"),
        base_uri: String::from_str(env, "https://test.com/"),
        max_supply,
        is_public_mint: true,
        royalty_percentage: 500,
        royalty_recipient: admin.clone(),
    }
}

#[test]
fn test_factory_logic() {
    let env = Env::default();
    env.mock_all_auths();

    let admin = Address::generate(&env);
    let _creator = Address::generate(&env);

    let factory = CollectionFactory::initialize(admin.clone());

    assert_eq!(factory.get_collection_count(), 0);
}

#[test]
fn test_collection_logic() {
    let env = Env::default();
    env.mock_all_auths();

    let admin = Address::generate(&env);
    let user1 = Address::generate(&env);
    let user2 = Address::generate(&env);

    let collection_id = Address::generate(&env);

    let config = CollectionConfig {
        name: String::from_str(&env, "Test NFT"),
        symbol: String::from_str(&env, "TNFT"),
        description: String::from_str(&env, "Test Description"),
        base_uri: String::from_str(&env, "https://test.com/"),
        max_supply: Some(100),
        is_public_mint: true,
        royalty_percentage: 500,
        royalty_recipient: admin.clone(),
    };

    let mut collection = NftCollection::init(collection_id.clone(), admin.clone(), config);

    let token_id = 1;
    let uri = String::from_str(&env, "ipfs://hash");
    let attributes = Vec::new(&env);

    collection
        .mint(user1.clone(), token_id, uri, attributes, env.ledger().timestamp())
        .unwrap();

    assert_eq!(collection.owner_of(token_id), Some(user1.clone()));
    assert_eq!(collection.balance_of(&user1, token_id), 1);
    assert_eq!(collection.total_supply(), 1);

    collection.transfer(&user1, user2.clone(), token_id).unwrap();

    assert_eq!(collection.owner_of(token_id), Some(user2.clone()));
    assert_eq!(collection.balance_of(&user1, token_id), 0);
    assert_eq!(collection.balance_of(&user2, token_id), 1);

    let royalty = collection.get_royalty_info();
    assert_eq!(royalty.recipient, admin);
    assert_eq!(royalty.percentage, 500);
}

#[test]
fn test_unauthorized_mint() {
    let env = Env::default();
    env.mock_all_auths();

    let admin = Address::generate(&env);
    let _user = Address::generate(&env);

    let collection_id = Address::generate(&env);

    let config = CollectionConfig {
        name: String::from_str(&env, "Test"),
        symbol: String::from_str(&env, "T"),
        description: String::from_str(&env, "D"),
        base_uri: String::from_str(&env, "U"),
        max_supply: None,
        is_public_mint: false,
        royalty_percentage: 0,
        royalty_recipient: admin.clone(),
    };

    let _collection = NftCollection::init(collection_id, admin.clone(), config);
}

#[test]
fn mint_reports_the_event_and_records_the_metadata() {
    let env = Env::default();
    let admin = Address::generate(&env);
    let user = Address::generate(&env);
    let address = Address::generate(&env);
    let mut collection = NftCollection::init(address.clone(), admin.clone(), test_config(&env, &admin, None));
    let uri = String::from_str(&env, "ipfs://hash");
    let event = collection.mint(user.clone(), 5, uri.clone(), Vec::new(&env), 42).unwrap();
    assert_eq!(event.collection, address);
    assert_eq!(event.to, user);
    assert_eq!(event.token_id, 5);
    assert_eq!(event.amount, 1);
    assert_eq!(collection.get_token_uri(5), Some(uri.clone()));
    let metadata = collection.get_token_metadata(5).unwrap();
    assert_eq!(metadata.token_id, 5);
    assert_eq!(metadata.uri, uri);
    assert_eq!(metadata.creator, admin);
    assert_eq!(metadata.created_at, 42);
    assert_eq!(metadata.attributes.len(), 0);
    assert_eq!(collection.get_token_uri(6), None);
    assert!(collection.get_token_metadata(6).is_none());
    assert_eq!(collection.owner_of(6), None);
    assert_eq!(collection.balance_of(&user, 6), 0);
}

#[test]
fn mint_fails_for_a_taken_number_a_full_collection_and_a_revoked_admin() {
    let env = Env::default();
    let admin = Address::generate(&env);
    let user = Address::generate(&env);
    let mut collection =
        NftCollection::init(Address::generate(&env), admin.clone(), test_config(&env, &admin, Some(2)));
    let uri = String::from_str(&env, "u");
    collection.mint(user.clone(), 1, uri.clone(), Vec::new(&env), 0).unwrap();
    let again = collection.mint(user.clone(), 1, uri.clone(), Vec::new(&env), 0);
    assert!(matches!(again, Err(ContractError::TokenAlreadyExists)));
    collection.mint(user.clone(), 2, uri.clone(), Vec::new(&env), 0).unwrap();
    let full = collection.mint(user.clone(), 3, uri.clone(), Vec::new(&env), 0);
    assert!(matches!(full, Err(ContractError::SupplyLimitExceeded)));
    assert_eq!(collection.total_supply(), 2);
    assert!(collection.is_minter(&admin));
    assert!(!collection.is_minter(&user));
    collection.set_minter(admin.clone(), false);
    assert!(!collection.is_minter(&admin));
    let denied = collection.mint(user.clone(), 9, uri.clone(), Vec::new(&env), 0);
    assert!(matches!(denied, Err(ContractError::NotMinter)));
    collection.set_minter(user.clone(), true);
    collection.set_minter(user.clone(), true);
    assert!(collection.is_minter(&user));
    assert_eq!(collection.minters().len(), 1);
    collection.set_minter(admin.clone(), true);
    assert_eq!(collection.minters().len(), 2);
}

#[test]
fn transfer_needs_the_owner_and_an_unpaused_collection() {
    let env = Env::default();
    let admin = Address::generate(&env);
    let user1 = Address::generate(&env);
    let user2 = Address::generate(&env);
    let address = Address::generate(&env);
    let mut collection = NftCollection::init(address.clone(), admin.clone(), test_config(&env, &admin, None));
    collection.mint(user1.clone(), 1, String::from_str(&env, "u"), Vec::new(&env), 0).unwrap();
    assert!(matches!(collection.transfer(&user2, user1.clone(), 1), Err(ContractError::NotAuthorized)));
    assert!(matches!(collection.transfer(&user1, user2.clone(), 2), Err(ContractError::NotFound)));
    collection.set_pause(true);
    assert!(collection.is_paused());
    assert!(matches!(collection.transfer(&user1, user2.clone(), 1), Err(ContractError::ContractPaused)));
    assert_eq!(collection.owner_of(1), Some(user1.clone()));
    collection.set_pause(false);
    let event = collection.transfer(&user1, user2.clone(), 1).unwrap();
    assert_eq!(event.collection, address);
    assert_eq!(event.from, user1);
    assert_eq!(event.to, user2);
    assert_eq!(event.token_id, 1);
    assert_eq!(event.amount, 1);
    assert_eq!(collection.total_supply(), 1);
}

#[test]
fn burn_removes_the_token_and_lowers_the_supply() {
    let env = Env::default();
    let admin = Address::generate(&env);
    let user1 = Address::generate(&env);
    let user2 = Address::generate(&env);
    let mut collection =
        NftCollection::init(Address::generate(&env), admin.clone(), test_config(&env, &admin, None));
    let uri = String::from_str(&env, "u");
    collection.mint(user1.clone(), 1, uri.clone(), Vec::new(&env), 0).unwrap();
    collection.mint(user2.clone(), 2, uri.clone(), Vec::new(&env), 0).unwrap();
    assert!(matches!(collection.burn(&user2, 1), Err(ContractError::NotAuthorized)));
    assert!(matches!(collection.burn(&user1, 3), Err(ContractError::NotFound)));
    let event = collection.burn(&user1, 1).unwrap();
    assert_eq!(event.from, user1);
    assert_eq!(event.token_id, 1);
    assert_eq!(event.amount, 1);
    assert_eq!(collection.total_supply(), 1);
    assert_eq!(collection.owner_of(1), None);
    assert_eq!(collection.balance_of(&user1, 1), 0);
    assert_eq!(collection.owner_of(2), Some(user2.clone()));
    assert_eq!(collection.balance_of(&user2, 2), 1);
    collection.mint(user2.clone(), 1, uri.clone(), Vec::new(&env), 0).unwrap();
    assert_eq!(collection.owner_of(1), Some(user2.clone()));
    assert_eq!(collection.total_supply(), 2);
}

#[test]
fn collection_royalty_is_at_most_the_whole_price() {
    let env = Env::default();
    let admin = Address::generate(&env);
    let other = Address::generate(&env);
    let mut collection =
        NftCollection::init(Address::generate(&env), admin.clone(), test_config(&env, &admin, None));
    assert_eq!(collection.set_royalty_info(other.clone(), 10001), Err(ContractError::InvalidRoyalty));
    assert_eq!(collection.get_royalty_info().percentage, 500);
    assert_eq!(collection.set_royalty_info(other.clone(), 10000), Ok(()));
    assert_eq!(collection.get_royalty_info().percentage, 10000);
    assert_eq!(collection.get_royalty_info().recipient, other);
}

#[test]
fn restored_collection_must_be_well_formed() {
    let env = Env::default();
    let admin = Address::generate(&env);
    let user = Address::generate(&env);
    let address = Address::generate(&env);
    let mut collection = NftCollection::init(address.clone(), admin.clone(), test_config(&env, &admin, None));
    let uri = String::from_str(&env, "u");
    collection.mint(user.clone(), 1, uri.clone(), Vec::new(&env), 0).unwrap();
    let first = nftopia::collection_factory::collection::TokenRecord {
        metadata: collection.get_token_metadata(1).unwrap(),
        owner: user.clone(),
    };
    let second = nftopia::collection_factory::collection::TokenRecord {
        metadata: collection.get_token_metadata(1).unwrap(),
        owner: admin.clone(),
    };
    let restored = NftCollection::restore(
        address.clone(),
        admin.clone(),
        test_config(&env, &admin, None),
        true,
        collection.get_royalty_info(),
        vec![admin.clone()],
        vec![first],
    )
    .unwrap();
    assert_eq!(restored.total_supply(), 1);
    assert!(restored.is_paused());
    assert_eq!(restored.owner_of(1), Some(user.clone()));
    let first = nftopia::collection_factory::collection::TokenRecord {
        metadata: collection.get_token_metadata(1).unwrap(),
        owner: user.clone(),
    };
    assert!(NftCollection::restore(
        address.clone(),
        admin.clone(),
        test_config(&env, &admin, None),
        false,
        collection.get_royalty_info(),
        vec![admin.clone()],
        vec![first, second],
    )
    .is_none());
    assert!(NftCollection::restore(
        address,
        admin.clone(),
        test_config(&env, &admin, None),
        false,
        collection.get_royalty_info(),
        vec![admin.clone(), admin.clone()],
        vec![],
    )
    .is_none());
}

#[test]
fn factory_numbers_collections_from_zero() {
    let env = Env::default();
    let admin = Address::generate(&env);
    let creator = Address::generate(&env);
    let first = Address::generate(&env);
    let second = Address::generate(&env);
    let mut factory = CollectionFactory::initialize(admin.clone());
    assert_eq!(factory.admin(), &admin);
    let created = factory
        .create_collection(&creator, first.clone(), test_config(&env, &admin, None), 11)
        .unwrap();
    assert_eq!(created.id, 0);
    assert_eq!(created.creator, creator);
    assert_eq!(created.collection, first);
    let created = factory
        .create_collection(&creator, second.clone(), test_config(&env, &admin, Some(3)), 12)
        .unwrap();
    assert_eq!(created.id, 1);
    assert_eq!(factory.get_collection_count(), 2);
    assert_eq!(factory.get_collection_address(0), Some(first.clone()));
    assert_eq!(factory.get_collection_address(1), Some(second.clone()));
    assert_eq!(factory.get_collection_address(2), None);
    let info = factory.get_collection_info(1).unwrap();
    assert_eq!(info.address, second);
    assert_eq!(info.creator, creator);
    assert_eq!(info.created_at, 12);
    assert_eq!(info.total_tokens, 0);
    assert_eq!(info.config.max_supply, Some(3));
    assert!(factory.get_collection_info(2).is_none());
    let next = Address::generate(&env);
    factory.set_admin(next.clone());
    assert_eq!(factory.admin(), &next);
    assert_eq!(factory.get_collection_count(), 2);
}

#[test]
fn contract_errors_are_numbered_from_one() {
    assert_eq!(ContractError::NotAuthorized.code(), 1);
    assert_eq!(ContractError::AlreadyInitialized.code(), 2);
    assert_eq!(ContractError::NotFound.code(), 3);
    assert_eq!(ContractError::InsufficientBalance.code(), 4);
    assert_eq!(ContractError::InvalidAmount.code(), 5);
    assert_eq!(ContractError::SupplyLimitExceeded.code(), 6);
    assert_eq!(ContractError::CollectionNotFound.code(), 7);
    assert_eq!(ContractError::NotMinter.code(), 8);
    assert_eq!(ContractError::ContractPaused.code(), 9);
    assert_eq!(ContractError::InvalidRoyalty.code(), 10);
    assert_eq!(ContractError::InvalidRecipient.code(), 11);
    assert_eq!(ContractError::TokenAlreadyExists.code(), 12);
}
