//! The settlement core: the entry points for sales, trades and bundles, and
//! the operations of the administrator, over the records of all components.

use crate::host::{map_entries, new_symbol, same_address, same_symbol, symbol_text};
use crate::marketplace_settlement::atomic_swap::{
    after_execution, after_failure, after_purchase, consistent, has_swap, initial_swap, needs_payment,
    purchase_outcome, purchase_refusal, purchased, refunds, swap_legs, swap_of, with_swap,
    AtomicSwapEngine, EngineView,
};
use crate::marketplace_settlement::error::SettlementError;
use crate::marketplace_settlement::events::EmergencyWithdrawalEvent;
use crate::marketplace_settlement::fee_manager::{
    acceptable, collection_outcome, fee_for, has_key, held, trade_volumes, with_amount,
    FeeManager, FeeManagerView,
};
use crate::marketplace_settlement::reentrancy_guard::{
    release_undoes_acquire, Operation, ReentrancyGuard,
};
use crate::marketplace_settlement::royalty_distributor::{
    all_paid, distribution_outcome, has_royalty, is_split_for, payouts, royalty_of,
    valid_records,
    RoyaltyDistributor, RoyaltyInfo,
};
use crate::marketplace_settlement::transfer_plan::{
    failed_before, first_failure, outcome_at, outcome_of, result_of,
};
use crate::marketplace_settlement::transaction_store::{
    bundle_of, has_bundle, has_sale, has_trade, next_bundle_id, next_sale_id, next_trade_id,
    numbered_bundles, numbered_sales, numbered_trades, sale_of, trade_of, BundleTransactionStore,
    SaleTransactionStore, TradeTransactionStore,
};
use crate::marketplace_settlement::types::{
    AdminConfig, Asset, AssetTransfer, BundleTransaction, BundleView, ExecutionResult, FeeConfig,
    FeeConfigView, NFTItem, SaleTransaction, TradeTransaction, TradeView, TransactionState,
    VolumeTier,
};
use soroban_sdk::{Address, Bytes, Symbol};
use vstd::prelude::*;

verus! {

/// The longest time for which a sale may stay open: thirty days, in seconds.
pub const MAX_TRANSACTION_DURATION: u64 = 2592000;

/// The records of the settlement core as contracts speak of them.
pub ghost struct SettlementView {
    pub admin_config: Option<AdminConfig>,
    pub fees: FeeManagerView,
    pub royalties: Seq<RoyaltyInfo>,
    pub swaps: EngineView,
    pub sales: Seq<SaleTransaction>,
    pub trades: Seq<TradeView>,
    pub bundles: Seq<BundleView>,
    pub guard: Seq<(Address, Operation)>,
}

/// Whether the records of every component are valid.
pub open spec fn valid(s: SettlementView) -> bool {
    &&& consistent(s.swaps)
    &&& valid_records(s.royalties)
    &&& numbered_sales(s.sales)
    &&& numbered_trades(s.trades)
    &&& numbered_bundles(s.bundles)
}

/// The configuration of the administrator: absent until it is set, and set
/// once.
pub struct AdminRegistry {
    config: Option<AdminConfig>,
}

impl View for AdminRegistry {
    type V = Option<AdminConfig>;

    closed spec fn view(&self) -> Option<AdminConfig> {
        self.config
    }
}

impl AdminRegistry {
    /// A registry without configuration.
    pub fn new() -> (r: Self)
        ensures
            r@ is None,
    {
        AdminRegistry { config: None }
    }

    /// The registry with the configuration that was read from the ledger.
    pub fn restore(config: Option<AdminConfig>) -> (r: Self)
        ensures
            r@ == config,
    {
        AdminRegistry { config }
    }

    /// The configuration, if one was set.
    pub fn get(&self) -> (r: Option<&AdminConfig>)
        ensures
            r is Some <==> self@ is Some,
            r is Some ==> *r->0 == self@->0,
    {
        self.config.as_ref()
    }

    /// Whether `admin` is the administrator: `Unauthorized` where no
    /// configuration was set or it names another.
    pub fn check(&self, admin: &Address) -> (r: Result<(), SettlementError>)
        ensures
            r == admin_check(self@, *admin),
    {
        match &self.config {
            None => Err(SettlementError::Unauthorized),
            Some(c) => {
                if !same_address(&c.admin, admin) {
                    Err(SettlementError::Unauthorized)
                } else {
                    Ok(())
                }
            },
        }
    }

    /// Sets the configuration, or fails with `InvalidState` and changes
    /// nothing where one was set before.
    pub fn set(&mut self, config: AdminConfig) -> (r: Result<(), SettlementError>)
        ensures
            old(self)@ is Some ==> r == Err::<(), SettlementError>(SettlementError::InvalidState)
                && final(self)@ == old(self)@,
            old(self)@ is None ==> r is Ok && final(self)@ == Some(config),
    {
        if self.config.is_some() {
            return Err(SettlementError::InvalidState);
        }
        self.config = Some(config);
        Ok(())
    }
}

/// Marketplace settlement: the configuration of the administrator and the
/// records of fees, royalties, swaps, sales, trades, bundles and the guard.
pub struct MarketplaceSettlement {
    pub admin: AdminRegistry,
    pub fees: FeeManager,
    pub royalties: RoyaltyDistributor,
    pub swaps: AtomicSwapEngine,
    pub sales: SaleTransactionStore,
    pub trades: TradeTransactionStore,
    pub bundles: BundleTransactionStore,
    pub guard: ReentrancyGuard,
}

impl View for MarketplaceSettlement {
    type V = SettlementView;

    open spec fn view(&self) -> SettlementView {
        SettlementView {
            admin_config: self.admin@,
            fees: self.fees@,
            royalties: self.royalties@,
            swaps: self.swaps@,
            sales: self.sales@,
            trades: self.trades@,
            bundles: self.bundles@,
            guard: self.guard@,
        }
    }
}

/// The configuration that `initialize` sets for the administrator.
pub open spec fn default_admin_config(admin: Address) -> AdminConfig {
    AdminConfig {
        admin,
        emergency_withdrawal_enabled: true,
        max_transaction_duration: 2592000,
        max_auction_duration: 604800,
        min_bid_increment_bps: 100,
        max_royalty_percentage: 5000,
        dispute_cooling_period: 86400,
        arbitration_quorum: 3,
    }
}

/// The fee configuration that `initialize` sets: two and a half percent,
/// between a thousand and a million units, with discounts of a half percent
/// from a volume of a million and of one percent from ten million.
pub open spec fn default_fee_config(fee_recipient: Address) -> FeeConfigView {
    FeeConfigView {
        platform_fee_bps: 250,
        minimum_fee: 1000,
        maximum_fee: 1000000,
        fee_recipient,
        dynamic_fee_enabled: true,
        volume_discounts: seq![
            VolumeTier { min_volume: 1000000, fee_discount_bps: 50 },
            VolumeTier { min_volume: 10000000, fee_discount_bps: 100 },
        ],
        vip_exemptions: Seq::empty(),
    }
}

/// Whether the times of a sale are in bounds: it stays open for at most
/// thirty days, and its end can be held in a `u64`.
pub open spec fn timing_in_bounds(now: u64, duration_seconds: u64) -> bool {
    duration_seconds <= MAX_TRANSACTION_DURATION && now + duration_seconds <= u64::MAX
}

/// What the creation of a sale comes to, in the order of the checks: the
/// seller must not be inside the operation already (`Reentrant`), the
/// host's validation of the currency and of the collection must have passed
/// (else its error), the times must be in bounds (`InvalidAmount`), the
/// seller must own the token
/// (`Unauthorized`), the token must have a royalty record and the fees a
/// configuration (`NotFound`), an identifier must be left for the sale
/// (`InvalidAmount`), the transaction must not have a swap (`InvalidState`)
/// and an identifier must be left for the swap (`InvalidAmount`).
pub open spec fn create_sale_outcome(
    s: SettlementView,
    now: u64,
    seller: Address,
    nft_address: Address,
    token_id: u64,
    duration_seconds: u64,
    validation: Result<(), SettlementError>,
    nft_owner: Option<Address>,
) -> Result<u64, SettlementError> {
    if s.guard.contains((seller, Operation::CreateSale)) {
        Err(SettlementError::Reentrant)
    } else if validation is Err {
        Err(validation->Err_0)
    } else if !timing_in_bounds(now, duration_seconds) {
        Err(SettlementError::InvalidAmount)
    } else if nft_owner != Some(seller) {
        Err(SettlementError::Unauthorized)
    } else if !has_royalty(s.royalties, nft_address, token_id) {
        Err(SettlementError::NotFound)
    } else if s.fees.config is None {
        Err(SettlementError::NotFound)
    } else if next_sale_id(s.sales) is None {
        Err(SettlementError::InvalidAmount)
    } else if has_swap(s.swaps.swaps, next_sale_id(s.sales)->0) {
        Err(SettlementError::InvalidState)
    } else if s.swaps.next_swap == u64::MAX {
        Err(SettlementError::InvalidAmount)
    } else {
        Ok(next_sale_id(s.sales)->0)
    }
}

/// Whether `sale` is the record of a sale just created from the records `s`.
pub open spec fn is_new_sale(
    sale: SaleTransaction,
    s: SettlementView,
    id: u64,
    now: u64,
    seller: Address,
    nft_address: Address,
    token_id: u64,
    price: i128,
    currency: Asset,
    duration_seconds: u64,
) -> bool {
    &&& sale.transaction_id == id
    &&& sale.seller == seller
    &&& sale.buyer is None
    &&& sale.nft_address == nft_address
    &&& sale.token_id == token_id
    &&& sale.price == price
    &&& sale.currency == currency
    &&& sale.state == TransactionState::Pending
    &&& sale.created_at == now
    &&& sale.expires_at == now + duration_seconds
    &&& sale.escrow_address == s.swaps.custody
    &&& is_split_for(sale.royalty_info, royalty_of(s.royalties, nft_address, token_id), price)
    &&& s.fees.config is Some
    &&& sale.platform_fee == fee_for(
        s.fees.config->0,
        held(s.fees.volumes, seller),
        price,
        seller,
    )
}

/// Whether the records `after` are the records `before` with a sale just
/// created: one sale more, and one swap more for it, which holds the token
/// under the seller and the payment under the seller too, who stands in for
/// the buyer until one is known.
pub open spec fn sale_created(
    before: SettlementView,
    after: SettlementView,
    id: u64,
    now: u64,
    seller: Address,
    nft_address: Address,
    token_id: u64,
    price: i128,
    currency: Asset,
    duration_seconds: u64,
) -> bool {
    &&& after.sales.len() == before.sales.len() + 1
    &&& after.sales.drop_last() == before.sales
    &&& is_new_sale(
        after.sales.last(),
        before,
        id,
        now,
        seller,
        nft_address,
        token_id,
        price,
        currency,
        duration_seconds,
    )
    &&& after.swaps.swaps.len() == before.swaps.swaps.len() + 1
    &&& after.swaps.swaps.last().seller_escrow.len() == 1
    &&& after.swaps.swaps.last().seller_escrow[0].asset.contract == nft_address
    &&& symbol_text(after.swaps.swaps.last().seller_escrow[0].asset.symbol) == "NFT"@
    &&& after.swaps == (EngineView {
        swaps: before.swaps.swaps.push(
            initial_swap(
                before.swaps.next_swap,
                id,
                seller,
                seller,
                after.swaps.swaps.last().seller_escrow[0].asset,
                token_id,
                currency,
                price,
                now,
            ),
        ),
        next_swap: (before.swaps.next_swap + 1) as u64,
        custody: before.swaps.custody,
    })
    &&& after == (SettlementView { sales: after.sales, swaps: after.swaps, ..before })
}

/// Whether the inputs of a sale are valid for the records `s`: the seller
/// is not inside the operation already, the host's validation has passed,
/// the times are in bounds, the seller owns the token, the token has a
/// royalty record, the fees are configured, and an identifier is left for
/// the sale and for its swap, under which no swap stands yet.
pub open spec fn valid_sale_inputs(
    s: SettlementView,
    now: u64,
    seller: Address,
    nft_address: Address,
    token_id: u64,
    duration_seconds: u64,
    validation: Result<(), SettlementError>,
    nft_owner: Option<Address>,
) -> bool {
    &&& !s.guard.contains((seller, Operation::CreateSale))
    &&& validation is Ok
    &&& timing_in_bounds(now, duration_seconds)
    &&& nft_owner == Some(seller)
    &&& has_royalty(s.royalties, nft_address, token_id)
    &&& s.fees.config is Some
    &&& next_sale_id(s.sales) is Some
    &&& !has_swap(s.swaps.swaps, next_sale_id(s.sales)->0)
    &&& s.swaps.next_swap < u64::MAX
}

/// The creation of a sale succeeds on exactly the valid inputs, and gives
/// the sale the next identifier.
pub proof fn valid_inputs_create_a_sale(
    s: SettlementView,
    now: u64,
    seller: Address,
    nft_address: Address,
    token_id: u64,
    duration_seconds: u64,
    validation: Result<(), SettlementError>,
    nft_owner: Option<Address>,
)
    ensures
        valid_sale_inputs(
            s,
            now,
            seller,
            nft_address,
            token_id,
            duration_seconds,
            validation,
            nft_owner,
        ) <==> create_sale_outcome(
            s,
            now,
            seller,
            nft_address,
            token_id,
            duration_seconds,
            validation,
            nft_owner,
        ) is Ok,
        create_sale_outcome(
            s,
            now,
            seller,
            nft_address,
            token_id,
            duration_seconds,
            validation,
            nft_owner,
        ) is Ok ==> create_sale_outcome(
            s,
            now,
            seller,
            nft_address,
            token_id,
            duration_seconds,
            validation,
            nft_owner,
        ) == Ok::<u64, SettlementError>((s.sales.len() + 1) as u64),
{
}

/// A sale that was just created is found under its identifier, in the state
/// `Pending`, and expires when its duration has passed since its creation.
pub proof fn created_sale_is_found(
    before: SettlementView,
    after: SettlementView,
    id: u64,
    now: u64,
    seller: Address,
    nft_address: Address,
    token_id: u64,
    price: i128,
    currency: Asset,
    duration_seconds: u64,
)
    requires
        next_sale_id(before.sales) == Some(id),
        sale_created(
            before,
            after,
            id,
            now,
            seller,
            nft_address,
            token_id,
            price,
            currency,
            duration_seconds,
        ),
    ensures
        has_sale(after.sales, id),
        sale_of(after.sales, id).transaction_id == id,
        sale_of(after.sales, id).state == TransactionState::Pending,
        sale_of(after.sales, id).created_at == now,
        sale_of(after.sales, id).expires_at == sale_of(after.sales, id).created_at
            + duration_seconds,
{
}

impl MarketplaceSettlement {
    /// A settlement core without configuration and without records, which
    /// holds assets under `custody`.
    pub fn new(custody: Address) -> (r: Self)
        ensures
            valid(r@),
            r@.admin_config is None,
            r@.fees.config is None,
            r@.fees.accumulated.len() == 0,
            r@.fees.volumes.len() == 0,
            r@.royalties.len() == 0,
            r@.swaps == (EngineView { swaps: Seq::empty(), next_swap: 1, custody }),
            r@.sales.len() == 0,
            r@.trades.len() == 0,
            r@.bundles.len() == 0,
            r@.guard.len() == 0,
    {
        MarketplaceSettlement {
            admin: AdminRegistry::new(),
            fees: FeeManager::new(),
            royalties: RoyaltyDistributor::new(),
            swaps: AtomicSwapEngine::new(custody),
            sales: SaleTransactionStore::new(),
            trades: TradeTransactionStore::new(),
            bundles: BundleTransactionStore::new(),
            guard: ReentrancyGuard::new(),
        }
    }

    /// Sets the default configuration with `admin` as administrator and
    /// `fee_recipient` as recipient of the fees. Fails with `InvalidState`
    /// and changes nothing where the core was initialized before.
    pub fn initialize(&mut self, admin: Address, fee_recipient: Address) -> (r: Result<
        (),
        SettlementError,
    >)
        ensures
            old(self)@.admin_config is Some ==> r == Err::<(), SettlementError>(
                SettlementError::InvalidState,
            ) && final(self)@ == old(self)@,
            old(self)@.admin_config is None ==> r is Ok && final(self)@ == (SettlementView {
                admin_config: Some(default_admin_config(admin)),
                fees: FeeManagerView {
                    config: Some(default_fee_config(fee_recipient)),
                    ..old(self)@.fees
                },
                ..old(self)@
            }),
    {
        if self.admin.get().is_some() {
            return Err(SettlementError::InvalidState);
        }
        let mut discounts: Vec<VolumeTier> = Vec::new();
        discounts.push(VolumeTier { min_volume: 1000000, fee_discount_bps: 50 });
        discounts.push(VolumeTier { min_volume: 10000000, fee_discount_bps: 100 });
        let fee_config = FeeConfig {
            platform_fee_bps: 250,
            minimum_fee: 1000,
            maximum_fee: 1000000,
            fee_recipient,
            dynamic_fee_enabled: true,
            volume_discounts: discounts,
            vip_exemptions: Vec::new(),
        };
        assert(fee_config@.volume_discounts =~= default_fee_config(fee_recipient).volume_discounts);
        assert(fee_config@.vip_exemptions =~= default_fee_config(fee_recipient).vip_exemptions);
        assert(fee_config@ == default_fee_config(fee_recipient));
        match self.admin.set(
            AdminConfig {
                admin: admin.clone(),
                emergency_withdrawal_enabled: true,
                max_transaction_duration: 2592000,
                max_auction_duration: 604800,
                min_bid_increment_bps: 100,
                max_royalty_percentage: 5000,
                dispute_cooling_period: 86400,
                arbitration_quorum: 3,
            },
        ) {
            Ok(_) => {},
            Err(e) => {
                return Err(e);
            },
        }
        self.fees.update_fee_config(fee_config, &admin, &self.admin)
    }

    /// A copy of the sale with the identifier, or `NotFound`.
    pub fn get_sale(&self, transaction_id: u64) -> (r: Result<SaleTransaction, SettlementError>)
        ensures
            has_sale(self@.sales, transaction_id) ==> r == Ok::<SaleTransaction, SettlementError>(
                sale_of(self@.sales, transaction_id),
            ),
            !has_sale(self@.sales, transaction_id) ==> r == Err::<
                SaleTransaction,
                SettlementError,
            >(SettlementError::NotFound),
    {
        self.sales.get(transaction_id)
    }

    /// The fees collected for the asset and not yet withdrawn.
    pub fn get_accumulated_fees(&self, asset: &Asset) -> (r: i128)
        ensures
            r == held(self@.fees.accumulated, *asset),
    {
        self.fees.get_accumulated_fees(asset)
    }

    /// The volume that the user has traded.
    pub fn get_user_volume(&self, user: &Address) -> (r: Result<i128, SettlementError>)
        ensures
            r == Ok::<i128, SettlementError>(held(self@.fees.volumes, *user)),
    {
        self.fees.get_user_volume(user)
    }

    /// Creates a fixed-price sale at `now`, `validation` being what the
    /// host's validation of the currency and of the collection contract
    /// came to, and `nft_owner` the owner of the token as the collection
    /// names it.
    ///
    /// On success the sale is recorded as `Pending` under the next
    /// identifier, with its royalty split and platform fee computed, and a
    /// swap is opened for it. See `create_sale_outcome` for the failures, on
    /// which nothing changes.
    pub fn create_sale(
        &mut self,
        now: u64,
        seller: &Address,
        nft_address: &Address,
        token_id: u64,
        price: i128,
        currency: &Asset,
        duration_seconds: u64,
        validation: Result<(), SettlementError>,
        nft_owner: Option<&Address>,
    ) -> (r: Result<u64, SettlementError>)
        requires
            valid(old(self)@),
        ensures
            valid(final(self)@),
            r == create_sale_outcome(
                old(self)@,
                now,
                *seller,
                *nft_address,
                token_id,
                duration_seconds,
                validation,
                match nft_owner {
                    Some(o) => Some(*o),
                    None => None,
                },
            ),
            r is Err ==> final(self)@ == old(self)@,
            r is Ok ==> sale_created(
                old(self)@,
                final(self)@,
                r->Ok_0,
                now,
                *seller,
                *nft_address,
                token_id,
                price,
                *currency,
                duration_seconds,
            ),
    {
        match self.guard.enter(seller, Operation::CreateSale) {
            Err(e) => {
                return Err(e);
            },
            Ok(_) => {},
        }
        let r = self.create_sale_guarded(
            now,
            seller,
            nft_address,
            token_id,
            price,
            currency,
            duration_seconds,
            validation,
            nft_owner,
        );
        self.guard.exit(seller, Operation::CreateSale);
        proof {
            release_undoes_acquire(old(self)@.guard, (*seller, Operation::CreateSale));
        }
        r
    }

    /// The creation of a sale, inside the guard.
    fn create_sale_guarded(
        &mut self,
        now: u64,
        seller: &Address,
        nft_address: &Address,
        token_id: u64,
        price: i128,
        currency: &Asset,
        duration_seconds: u64,
        validation: Result<(), SettlementError>,
        nft_owner: Option<&Address>,
    ) -> (r: Result<u64, SettlementError>)
        requires
            valid(old(self)@),
        ensures
            valid(final(self)@),
            final(self)@.guard == old(self)@.guard,
            r == create_sale_outcome(
                SettlementView { guard: Seq::empty(), ..old(self)@ },
                now,
                *seller,
                *nft_address,
                token_id,
                duration_seconds,
                validation,
                match nft_owner {
                    Some(o) => Some(*o),
                    None => None,
                },
            ),
            r is Err ==> final(self)@ == old(self)@,
            r is Ok ==> sale_created(
                old(self)@,
                final(self)@,
                r->Ok_0,
                now,
                *seller,
                *nft_address,
                token_id,
                price,
                *currency,
                duration_seconds,
            ),
    {
        match validation {
            Ok(_) => {},
            Err(e) => {
                return Err(e);
            },
        }
        if duration_seconds > MAX_TRANSACTION_DURATION || duration_seconds > u64::MAX - now {
            return Err(SettlementError::InvalidAmount);
        }
        match nft_owner {
            Some(owner) => {
                if !same_address(owner, seller) {
                    return Err(SettlementError::Unauthorized);
                }
            },
            None => {
                return Err(SettlementError::Unauthorized);
            },
        }
        let royalty_info = match self.royalties.calculate_royalties(nft_address, token_id, price) {
            Ok(d) => d,
            Err(e) => {
                return Err(e);
            },
        };
        let platform_fee: i128 = match self.fees.calculate_fee(price, seller) {
            Ok(f) => f,
            Err(e) => {
                return Err(e);
            },
        };
        let transaction_id: u64 = match self.sales.next_id() {
            Some(id) => id,
            None => {
                return Err(SettlementError::InvalidAmount);
            },
        };
        match self.swaps.get_swap_by_transaction(transaction_id) {
            Ok(_) => {
                return Err(SettlementError::InvalidState);
            },
            Err(_) => {},
        }
        if self.swaps.next_swap() == u64::MAX {
            return Err(SettlementError::InvalidAmount);
        }
        proof {
            reveal_strlit("NFT");
        }
        let nft_asset = Asset { contract: nft_address.clone(), symbol: new_symbol(seller, "NFT") };
        let sale = SaleTransaction {
            transaction_id,
            seller: seller.clone(),
            buyer: None,
            nft_address: nft_address.clone(),
            token_id,
            price,
            currency: currency.clone(),
            state: TransactionState::Pending,
            created_at: now,
            expires_at: now + duration_seconds,
            escrow_address: self.swaps.custody().clone(),
            royalty_info,
            platform_fee,
        };
        match self.sales.put(sale) {
            Ok(_) => {},
            Err(e) => {
                return Err(e);
            },
        }
        match self.swaps.initialize_swap(
            transaction_id,
            seller,
            seller,
            &nft_asset,
            token_id,
            currency,
            price,
            now,
        ) {
            Ok(_) => {},
            Err(e) => {
                return Err(e);
            },
        }
        assert(self@.sales.drop_last() =~= old(self)@.sales);
        Ok(transaction_id)
    }
}


/// A marker is among the markers with one more exactly when it is that one
/// or was among them before.
pub proof fn pushed_marker_contains(
    markers: Seq<(Address, Operation)>,
    marker: (Address, Operation),
    other: (Address, Operation),
)
    ensures
        markers.push(marker).contains(other) <==> (markers.contains(other) || other == marker),
{
    let pushed = markers.push(marker);
    if markers.contains(other) {
        let i = choose|i: int| 0 <= i < markers.len() && markers[i] == other;
        assert(pushed[i] == other);
    }
    if other == marker {
        assert(pushed[markers.len() as int] == other);
    }
    if pushed.contains(other) {
        let i = choose|i: int| 0 <= i < pushed.len() && pushed[i] == other;
        if i < markers.len() {
            assert(markers[i] == other);
        }
    }
}

/// The checks on the sale itself before it is executed: it must exist
/// (`NotFound`), be `Pending` (`InvalidState`), not have expired
/// (`Expired`), and the payment must be exactly its price
/// (`InvalidAmount`).
pub open spec fn sale_checks(
    s: SettlementView,
    transaction_id: u64,
    payment_amount: i128,
    now: u64,
) -> Result<(), SettlementError> {
    if !has_sale(s.sales, transaction_id) {
        Err(SettlementError::NotFound)
    } else if sale_of(s.sales, transaction_id).state != TransactionState::Pending {
        Err(SettlementError::InvalidState)
    } else if now > sale_of(s.sales, transaction_id).expires_at {
        Err(SettlementError::Expired)
    } else if payment_amount != sale_of(s.sales, transaction_id).price {
        Err(SettlementError::InvalidAmount)
    } else {
        Ok(())
    }
}

/// The purchase of the token of a sale by `buyer` as the swap engine sees
/// it: why it is turned down before any asset moves, if it is.
pub open spec fn sale_purchase_refusal(
    s: SettlementView,
    transaction_id: u64,
    buyer: Address,
    now: u64,
) -> Option<SettlementError> {
    purchase_refusal(
        s.swaps,
        s.guard,
        transaction_id,
        buyer,
        sale_of(s.sales, transaction_id).currency,
        now,
    )
}

/// What the execution of a sale comes to once the guard has let the buyer
/// in: the checks on the sale; the purchase, in which the swap is executed,
/// after the buyer has funded it where it was not `Ready`; the distribution
/// of the royalties; and the collection of the platform fee. Each can fail;
/// the first failure decides.
pub open spec fn guarded_sale_outcome(
    s: SettlementView,
    transaction_id: u64,
    buyer: Address,
    payment_amount: i128,
    now: u64,
    paid: Result<(), SettlementError>,
    transfers: Result<(), SettlementError>,
    payouts_done: Seq<bool>,
    fee_collected: Result<(), SettlementError>,
) -> Result<ExecutionResult, SettlementError> {
    match sale_checks(s, transaction_id, payment_amount, now) {
        Err(e) => Err(e),
        Ok(_) => match purchase_outcome(
            sale_purchase_refusal(s, transaction_id, buyer, now),
            needs_payment(swap_of(s.swaps.swaps, transaction_id)),
            transaction_id,
            now,
            paid,
            transfers,
        ) {
            Err(e) => Err(e),
            Ok(_) => match distribution_outcome(
                transaction_id,
                sale_of(s.sales, transaction_id).royalty_info,
                now,
                payouts_done,
            ) {
                Err(e) => Err(e),
                Ok(d) => match collection_outcome(
                    s.fees,
                    sale_of(s.sales, transaction_id).platform_fee,
                    sale_of(s.sales, transaction_id).currency,
                    fee_collected,
                ) {
                    Err(e) => Err(e),
                    Ok(_) => Ok(
                        ExecutionResult {
                            transaction_id,
                            success: true,
                            transferred_nft: true,
                            transferred_payment: true,
                            distributed_royalties: d.distribution_success,
                            collected_platform_fee: true,
                            timestamp: now,
                        },
                    ),
                },
            },
        },
    }
}

/// What the execution of a sale comes to: `Reentrant` where the buyer is
/// inside the operation already, else as `guarded_sale_outcome` says.
pub open spec fn execute_sale_outcome(
    s: SettlementView,
    transaction_id: u64,
    buyer: Address,
    payment_amount: i128,
    now: u64,
    paid: Result<(), SettlementError>,
    transfers: Result<(), SettlementError>,
    payouts_done: Seq<bool>,
    fee_collected: Result<(), SettlementError>,
) -> Result<ExecutionResult, SettlementError> {
    if s.guard.contains((buyer, Operation::ExecuteSale)) {
        Err(SettlementError::Reentrant)
    } else {
        guarded_sale_outcome(
            s,
            transaction_id,
            buyer,
            payment_amount,
            now,
            paid,
            transfers,
            payouts_done,
            fee_collected,
        )
    }
}

/// The sale as it is recorded once it was executed for `buyer`.
pub open spec fn executed_sale(sale: SaleTransaction, buyer: Address) -> SaleTransaction {
    SaleTransaction { buyer: Some(buyer), state: TransactionState::Executed, ..sale }
}

/// The records after a sale was executed: the sale is `Executed` with its
/// buyer; its swap is `Executed` at `now`, as it stood where it was
/// `Ready`, else with the buyer in the buyer's leg, which carries the
/// payment; the platform fee was added to the fees collected in the
/// currency of the sale; and the volumes of seller and buyer have grown by
/// the price.
pub open spec fn after_sale_execution(
    s: SettlementView,
    transaction_id: u64,
    buyer: Address,
    now: u64,
) -> SettlementView {
    let sale = sale_of(s.sales, transaction_id);
    SettlementView {
        sales: s.sales.update(transaction_id - 1, executed_sale(sale, buyer)),
        swaps: with_swap(
            s.swaps,
            transaction_id,
            after_purchase(swap_of(s.swaps.swaps, transaction_id), buyer, sale.currency, now),
        ),
        fees: FeeManagerView {
            accumulated: with_amount(
                s.fees.accumulated,
                sale.currency,
                (held(s.fees.accumulated, sale.currency) + sale.platform_fee) as i128,
            ),
            volumes: trade_volumes(s.fees.volumes, sale.seller, buyer, sale.price),
            ..s.fees
        },
        ..s
    }
}

/// A sale whose swap is `Ready` is executed as the swap stands: where the
/// checks on the sale pass, neither guard holds the buyer, the transfers of
/// the legs went through and the royalties and the fee can be booked, the
/// execution succeeds whatever `paid` says, the result tells whether every
/// payout went through, and the swap is the stored swap, executed.
pub proof fn ready_sale_is_executed(
    s: SettlementView,
    transaction_id: u64,
    buyer: Address,
    payment_amount: i128,
    now: u64,
    paid: Result<(), SettlementError>,
    payouts_done: Seq<bool>,
)
    requires
        !s.guard.contains((buyer, Operation::ExecuteSale)),
        !s.guard.contains((buyer, Operation::ExecuteSwap)),
        sale_checks(s, transaction_id, payment_amount, now) is Ok,
        has_swap(s.swaps.swaps, transaction_id),
        !needs_payment(swap_of(s.swaps.swaps, transaction_id)),
        distribution_outcome(
            transaction_id,
            sale_of(s.sales, transaction_id).royalty_info,
            now,
            payouts_done,
        ) is Ok,
        collection_outcome(
            s.fees,
            sale_of(s.sales, transaction_id).platform_fee,
            sale_of(s.sales, transaction_id).currency,
            Ok(()),
        ) is Ok,
    ensures
        execute_sale_outcome(
            s,
            transaction_id,
            buyer,
            payment_amount,
            now,
            paid,
            Ok(()),
            payouts_done,
            Ok(()),
        ) == Ok::<ExecutionResult, SettlementError>(
            ExecutionResult {
                transaction_id,
                success: true,
                transferred_nft: true,
                transferred_payment: true,
                distributed_royalties: all_paid(payouts_done),
                collected_platform_fee: true,
                timestamp: now,
            },
        ),
        after_sale_execution(s, transaction_id, buyer, now).swaps == with_swap(
            s.swaps,
            transaction_id,
            after_execution(swap_of(s.swaps.swaps, transaction_id), now),
        ),
{
}

/// The transfers that the execution of a sale needs, in the order in which
/// they are attempted: the payment of the price by the buyer into custody,
/// where the buyer funds the swap; the two legs of the swap; the payouts of
/// the royalties; and the platform fee.
#[derive(Debug)]
pub struct SaleSettlement {
    pub payment: Option<AssetTransfer>,
    pub swap_legs: Vec<AssetTransfer>,
    pub payouts: Vec<AssetTransfer>,
    pub fee: AssetTransfer,
}

/// Whether `plan` names the transfers for the execution of the sale. Where
/// the swap is `Ready`, nothing is paid into custody and the legs are those
/// of the swap as it stands. Else the price comes from `buyer` and the legs
/// are those of the swap with the buyer in the buyer's leg, so that the
/// seller's leg goes to the buyer and the buyer's to the seller. The
/// payouts are those of the royalty split, and the fee comes from the
/// buyer.
pub open spec fn is_settlement_of(
    plan: SaleSettlement,
    s: SettlementView,
    transaction_id: u64,
    buyer: Address,
    now: u64,
) -> bool {
    let sale = sale_of(s.sales, transaction_id);
    let swap = swap_of(s.swaps.swaps, transaction_id);
    &&& plan.payment == if needs_payment(swap) {
        Some(
            AssetTransfer::Tokens {
                contract: sale.currency.contract,
                from: buyer,
                to: s.swaps.custody,
                amount: sale.price,
            },
        )
    } else {
        None
    }
    &&& plan.swap_legs@ == swap_legs(purchased(swap, buyer, sale.currency, now), s.swaps.custody)
    &&& map_entries(sale.royalty_info.amounts) is Some
    &&& plan.payouts@ == payouts(
        map_entries(sale.royalty_info.amounts)->0,
        sale.currency,
        s.swaps.custody,
    )
    &&& plan.fee == (AssetTransfer::Tokens {
        contract: sale.currency.contract,
        from: buyer,
        to: s.swaps.custody,
        amount: sale.platform_fee,
    })
}

/// Why no transfers can be named for the execution of a sale, if so: what
/// `execute_sale` would fail with before it looks at any transfer.
pub open spec fn settlement_refusal(
    s: SettlementView,
    transaction_id: u64,
    buyer: Address,
    payment_amount: i128,
    now: u64,
) -> Option<SettlementError> {
    if s.guard.contains((buyer, Operation::ExecuteSale)) {
        Some(SettlementError::Reentrant)
    } else if sale_checks(s, transaction_id, payment_amount, now) is Err {
        Some(sale_checks(s, transaction_id, payment_amount, now)->Err_0)
    } else if sale_purchase_refusal(s, transaction_id, buyer, now) is Some {
        sale_purchase_refusal(s, transaction_id, buyer, now)
    } else if map_entries(sale_of(s.sales, transaction_id).royalty_info.amounts) is None {
        Some(SettlementError::InvalidAmount)
    } else if sale_of(s.sales, transaction_id).platform_fee < 0 {
        Some(SettlementError::InvalidAmount)
    } else {
        None
    }
}

/// How many payments into custody the plan holds: one or none.
pub open spec fn payments(plan: SaleSettlement) -> int {
    if plan.payment is Some {
        1
    } else {
        0
    }
}

/// How many transfers stand at the head of the plan whose failure stops
/// everything that follows: the payment and the legs of the swap.
pub open spec fn lead(plan: SaleSettlement) -> int {
    payments(plan) + plan.swap_legs@.len()
}

/// How many transfers the plan holds.
pub open spec fn step_count(plan: SaleSettlement) -> int {
    lead(plan) + plan.payouts@.len() + 1
}

/// The transfer at the place `k` of the plan.
pub open spec fn step(plan: SaleSettlement, k: int) -> AssetTransfer {
    if k < payments(plan) {
        plan.payment->0
    } else if k < lead(plan) {
        plan.swap_legs@[k - payments(plan)]
    } else if k < lead(plan) + plan.payouts@.len() {
        plan.payouts@[k - lead(plan)]
    } else {
        plan.fee
    }
}

/// The place of the transfer to attempt next, `outcomes` being what became
/// of the transfers attempted so far, in their order: the next in order;
/// none where all were attempted; and none where the payment or a leg of
/// the swap has failed, after which nothing more is attempted. A payout
/// that failed stops nothing: the other payouts and the fee are attempted
/// all the same.
pub open spec fn next_step(plan: SaleSettlement, outcomes: Seq<Result<(), SettlementError>>) -> Option<
    int,
> {
    if outcomes.len() >= step_count(plan) || failed_before(outcomes, lead(plan)) {
        None
    } else {
        Some(outcomes.len() as int)
    }
}

/// What the host made of the transfers of a sale, as `execute_sale` takes
/// it.
#[derive(Debug)]
pub struct SettlementReport {
    pub paid: Result<(), SettlementError>,
    pub transfers: Result<(), SettlementError>,
    pub payouts_done: Vec<bool>,
    pub fee_collected: Result<(), SettlementError>,
}

/// Whether `report` says what the attempts at the transfers of the plan
/// came to. A transfer that was not attempted counts as failed.
pub open spec fn is_report_of(
    report: SettlementReport,
    plan: SaleSettlement,
    outcomes: Seq<Result<(), SettlementError>>,
) -> bool {
    &&& report.paid == if plan.payment is Some {
        outcome_at(outcomes, 0)
    } else {
        Ok(())
    }
    &&& report.transfers == first_failure(
        outcomes,
        payments(plan),
        plan.swap_legs@.len() as int,
    )
    &&& report.payouts_done@ == Seq::new(
        plan.payouts@.len(),
        |i: int| outcome_at(outcomes, lead(plan) + i) is Ok,
    )
    &&& report.fee_collected == outcome_at(outcomes, lead(plan) + plan.payouts@.len())
}

impl SaleSettlement {
    /// The transfer to attempt next, `outcomes` being what became of the
    /// transfers attempted so far; see `next_step`.
    pub fn next_transfer(&self, outcomes: &Vec<Result<(), SettlementError>>) -> (r: Option<
        &AssetTransfer,
    >)
        ensures
            next_step(*self, outcomes@) is None ==> r is None,
            next_step(*self, outcomes@) is Some ==> r is Some && *r->0 == step(
                *self,
                next_step(*self, outcomes@)->0,
            ),
    {
        let p: usize = if self.payment.is_some() {
            1
        } else {
            0
        };
        let k: usize = outcomes.len();
        let mut j: usize = 0;
        while j < k && (j < p || j - p < self.swap_legs.len())
            invariant
                j <= k,
                k == outcomes@.len(),
                p == payments(*self),
                forall|i: int| 0 <= i < j ==> (#[trigger] outcomes@[i]) is Ok,
            decreases k - j,
        {
            match outcomes[j] {
                Err(_) => {
                    assert(j < lead(*self));
                    return None;
                },
                Ok(_) => {},
            }
            j += 1;
        }
        if k < p {
            return self.payment.as_ref();
        }
        let a: usize = k - p;
        if a < self.swap_legs.len() {
            return Some(&self.swap_legs[a]);
        }
        let b: usize = a - self.swap_legs.len();
        if b < self.payouts.len() {
            return Some(&self.payouts[b]);
        }
        if b == self.payouts.len() {
            return Some(&self.fee);
        }
        None
    }

    /// What the attempts at the transfers came to, as `execute_sale` takes
    /// it; see `is_report_of`.
    pub fn report(&self, outcomes: &Vec<Result<(), SettlementError>>) -> (r: SettlementReport)
        ensures
            is_report_of(r, *self, outcomes@),
    {
        let p: usize = if self.payment.is_some() {
            1
        } else {
            0
        };
        let paid = if self.payment.is_some() {
            outcome_of(outcomes, 0, 0, 0)
        } else {
            Ok(())
        };
        let transfers = result_of(outcomes, p, self.swap_legs.len());
        let ghost wanted = Seq::new(
            self.payouts@.len(),
            |i: int| outcome_at(outcomes@, lead(*self) + i) is Ok,
        );
        let mut payouts_done: Vec<bool> = Vec::new();
        let mut i: usize = 0;
        while i < self.payouts.len()
            invariant
                i <= self.payouts.len(),
                p == payments(*self),
                wanted == Seq::new(
                    self.payouts@.len(),
                    |i: int| outcome_at(outcomes@, lead(*self) + i) is Ok,
                ),
                payouts_done@ == wanted.take(i as int),
            decreases self.payouts.len() - i,
        {
            let went = match outcome_of(outcomes, p, self.swap_legs.len(), i) {
                Ok(_) => true,
                Err(_) => false,
            };
            payouts_done.push(went);
            assert(payouts_done@ =~= wanted.take(i + 1));
            i += 1;
        }
        assert(wanted.take(self.payouts.len() as int) =~= wanted);
        let fee_collected = outcome_of(outcomes, p, self.swap_legs.len(), self.payouts.len());
        SettlementReport { paid, transfers, payouts_done, fee_collected }
    }
}

/// What the creation of a trade or a bundle comes to once the guard has let
/// the caller in: it must offer a token, its end must be held in a `u64`,
/// and an identifier must be left; each failure is `InvalidAmount`.
pub open spec fn listing_outcome(
    offered: int,
    now: u64,
    duration_seconds: u64,
    next_id: Option<u64>,
) -> Result<u64, SettlementError> {
    if offered == 0 || now + duration_seconds > u64::MAX || next_id is None {
        Err(SettlementError::InvalidAmount)
    } else {
        Ok(next_id->0)
    }
}

/// What the acceptance of a trade comes to once the guard has let the
/// acceptor in: the trade must exist (`NotFound`), be `Pending`
/// (`InvalidState`) and not have expired (`Expired`).
pub open spec fn accept_outcome(trades: Seq<TradeView>, trade_id: u64, now: u64) -> Result<
    (),
    SettlementError,
> {
    if !has_trade(trades, trade_id) {
        Err(SettlementError::NotFound)
    } else if trade_of(trades, trade_id).state != TransactionState::Pending {
        Err(SettlementError::InvalidState)
    } else if now > trade_of(trades, trade_id).expires_at {
        Err(SettlementError::Expired)
    } else {
        Ok(())
    }
}

/// What the execution of a trade comes to once the guard has let the
/// executor in: the trade must exist (`NotFound`) and be `Funded`
/// (`InvalidState`).
pub open spec fn trade_execution_outcome(trades: Seq<TradeView>, trade_id: u64) -> Result<
    (),
    SettlementError,
> {
    if !has_trade(trades, trade_id) {
        Err(SettlementError::NotFound)
    } else if trade_of(trades, trade_id).state != TransactionState::Funded {
        Err(SettlementError::InvalidState)
    } else {
        Ok(())
    }
}

/// What a cancellation comes to once the guard has let the canceller in,
/// `is_sale` telling whether a sale is to be cancelled: only sales can be
/// cancelled (`InvalidAmount` for every other kind), the sale must exist
/// (`NotFound`), the canceller must be its seller (`Unauthorized`), and it
/// must be `Pending` (`InvalidState`).
pub open spec fn sale_cancel_outcome(
    sales: Seq<SaleTransaction>,
    transaction_id: u64,
    is_sale: bool,
    canceller: Address,
) -> Result<(), SettlementError> {
    if !is_sale {
        Err(SettlementError::InvalidAmount)
    } else if !has_sale(sales, transaction_id) {
        Err(SettlementError::NotFound)
    } else if sale_of(sales, transaction_id).seller != canceller {
        Err(SettlementError::Unauthorized)
    } else if sale_of(sales, transaction_id).state != TransactionState::Pending {
        Err(SettlementError::InvalidState)
    } else {
        Ok(())
    }
}

/// What the cancellation of a transaction of the kind `kind` comes to once
/// the guard has let the canceller in: the kind `sale` stands for a sale.
pub open spec fn cancel_outcome(
    sales: Seq<SaleTransaction>,
    transaction_id: u64,
    kind: Seq<char>,
    canceller: Address,
) -> Result<(), SettlementError> {
    sale_cancel_outcome(sales, transaction_id, kind == "sale"@, canceller)
}

/// The outcome of an operation behind the guard: `Reentrant` where the
/// caller is inside the operation already, else what the operation comes to.
pub open spec fn behind_guard<T>(
    markers: Seq<(Address, Operation)>,
    caller: Address,
    operation: Operation,
    outcome: Result<T, SettlementError>,
) -> Result<T, SettlementError> {
    if markers.contains((caller, operation)) {
        Err(SettlementError::Reentrant)
    } else {
        outcome
    }
}

/// Whether `admin` is the administrator: `Unauthorized` where no
/// configuration was set or it names another.
pub open spec fn admin_check(config: Option<AdminConfig>, admin: Address) -> Result<
    (),
    SettlementError,
> {
    match config {
        None => Err(SettlementError::Unauthorized),
        Some(c) => if c.admin != admin {
            Err(SettlementError::Unauthorized)
        } else {
            Ok(())
        },
    }
}

/// What an emergency withdrawal comes to: the caller must be the
/// administrator (`Unauthorized`), emergency withdrawals must be enabled
/// (`InvalidState`), the transaction must have a swap (`NotFound`), and the
/// refunds must have gone through.
pub open spec fn emergency_outcome(
    s: SettlementView,
    transaction_id: u64,
    admin: Address,
    refunded: Result<(), SettlementError>,
) -> Result<(), SettlementError> {
    if admin_check(s.admin_config, admin) is Err {
        Err(SettlementError::Unauthorized)
    } else if !s.admin_config->0.emergency_withdrawal_enabled {
        Err(SettlementError::InvalidState)
    } else if !has_swap(s.swaps.swaps, transaction_id) {
        Err(SettlementError::NotFound)
    } else {
        refunded
    }
}

impl MarketplaceSettlement {
    /// Whether `admin` is the administrator.
    fn check_admin(&self, admin: &Address) -> (r: Result<(), SettlementError>)
        ensures
            r == admin_check(self@.admin_config, *admin),
    {
        self.admin.check(admin)
    }

    /// The transfers that the execution of a sale needs, or why it would be
    /// turned down before any transfer is looked at.
    pub fn sale_settlement(
        &self,
        transaction_id: u64,
        buyer: &Address,
        payment_amount: i128,
        now: u64,
    ) -> (r: Result<SaleSettlement, SettlementError>)
        ensures
            settlement_refusal(self@, transaction_id, *buyer, payment_amount, now) is Some ==> r
                is Err && r->Err_0 == settlement_refusal(
                self@,
                transaction_id,
                *buyer,
                payment_amount,
                now,
            )->0,
            settlement_refusal(self@, transaction_id, *buyer, payment_amount, now) is None ==> r
                is Ok && is_settlement_of(r->Ok_0, self@, transaction_id, *buyer, now),
    {
        if self.guard.is_active(buyer, Operation::ExecuteSale) {
            return Err(SettlementError::Reentrant);
        }
        let sale = match self.checked_sale(transaction_id, payment_amount, now) {
            Ok(sale) => sale,
            Err(e) => {
                return Err(e);
            },
        };
        let purchase = match self.swaps.purchase_transfers(
            &self.guard,
            transaction_id,
            buyer,
            &sale.currency,
            sale.price,
            now,
        ) {
            Ok(p) => p,
            Err(e) => {
                return Err(e);
            },
        };
        let paid = match RoyaltyDistributor::payout_transfers(
            &sale.royalty_info,
            &sale.currency,
            self.swaps.custody(),
        ) {
            Ok(paid) => paid,
            Err(e) => {
                return Err(e);
            },
        };
        if sale.platform_fee < 0 {
            return Err(SettlementError::InvalidAmount);
        }
        let fee = FeeManager::fee_transfer(
            sale.platform_fee,
            &sale.currency,
            buyer,
            self.swaps.custody(),
        );
        Ok(
            SaleSettlement {
                payment: purchase.payment,
                swap_legs: purchase.legs,
                payouts: paid,
                fee,
            },
        )
    }

    /// The sale, if it passes the checks before its execution.
    fn checked_sale(&self, transaction_id: u64, payment_amount: i128, now: u64) -> (r: Result<
        SaleTransaction,
        SettlementError,
    >)
        ensures
            sale_checks(self@, transaction_id, payment_amount, now) is Err ==> r is Err
                && r->Err_0 == sale_checks(self@, transaction_id, payment_amount, now)->Err_0,
            sale_checks(self@, transaction_id, payment_amount, now) is Ok ==> r == Ok::<
                SaleTransaction,
                SettlementError,
            >(sale_of(self@.sales, transaction_id)),
    {
        let sale = match self.sales.get(transaction_id) {
            Ok(sale) => sale,
            Err(e) => {
                return Err(e);
            },
        };
        if sale.state != TransactionState::Pending {
            return Err(SettlementError::InvalidState);
        }
        if now > sale.expires_at {
            return Err(SettlementError::Expired);
        }
        if payment_amount != sale.price {
            return Err(SettlementError::InvalidAmount);
        }
        Ok(sale)
    }

    /// Executes a sale at `now` for `buyer`, who pays `payment_amount`.
    ///
    /// A swap that is `Ready` is executed as it stands. Who funds the
    /// buyer's leg of a sale whose buyer was not known when it was created
    /// is decided here: where the swap is not `Ready`, the buyer takes the
    /// buyer's leg, on which nothing may have been deposited, and pays the
    /// price into custody within this call; the seller must have deposited
    /// the token before, so that the swap is `Ready` with the buyer's
    /// payment. The swap is executed, the royalties are paid out and the
    /// platform fee is collected.
    ///
    /// What the host made of the transfers comes in with the call: `paid`
    /// for the buyer's payment, which is looked at only where the buyer
    /// funds the swap, `transfers` for the two legs of the swap,
    /// `payouts_done` for each payout of the royalties in the order of
    /// `sale_settlement`, and `fee_collected` for the platform fee. A
    /// payout that failed does not fail the sale: it clears
    /// `distributed_royalties` in the result.
    /// See `execute_sale_outcome` for the failures, on which nothing
    /// changes, and `after_sale_execution` for the records on success.
    pub fn execute_sale(
        &mut self,
        transaction_id: u64,
        buyer: &Address,
        payment_amount: i128,
        now: u64,
        paid: Result<(), SettlementError>,
        transfers: Result<(), SettlementError>,
        payouts_done: &Vec<bool>,
        fee_collected: Result<(), SettlementError>,
    ) -> (r: Result<ExecutionResult, SettlementError>)
        requires
            valid(old(self)@),
        ensures
            valid(final(self)@),
            r == execute_sale_outcome(
                old(self)@,
                transaction_id,
                *buyer,
                payment_amount,
                now,
                paid,
                transfers,
                payouts_done@,
                fee_collected,
            ),
            r is Err ==> final(self)@ == old(self)@,
            r is Ok ==> final(self)@ == after_sale_execution(
                old(self)@,
                transaction_id,
                *buyer,
                now,
            ),
            r is Ok ==> has_sale(final(self)@.sales, transaction_id) && sale_of(
                final(self)@.sales,
                transaction_id,
            ) == executed_sale(sale_of(old(self)@.sales, transaction_id), *buyer),
            r is Ok ==> has_swap(final(self)@.swaps.swaps, transaction_id) && swap_of(
                final(self)@.swaps.swaps,
                transaction_id,
            ) == after_purchase(
                swap_of(old(self)@.swaps.swaps, transaction_id),
                *buyer,
                sale_of(old(self)@.sales, transaction_id).currency,
                now,
            ),
    {
        match self.guard.enter(buyer, Operation::ExecuteSale) {
            Err(e) => {
                return Err(e);
            },
            Ok(_) => {},
        }
        proof {
            pushed_marker_contains(
                old(self)@.guard,
                (*buyer, Operation::ExecuteSale),
                (*buyer, Operation::ExecuteSwap),
            );
        }
        let r = self.execute_sale_guarded(
            transaction_id,
            buyer,
            payment_amount,
            now,
            paid,
            transfers,
            payouts_done,
            fee_collected,
        );
        self.guard.exit(buyer, Operation::ExecuteSale);
        proof {
            release_undoes_acquire(old(self)@.guard, (*buyer, Operation::ExecuteSale));
        }
        r
    }

    /// The execution of a sale, inside the guard.
    fn execute_sale_guarded(
        &mut self,
        transaction_id: u64,
        buyer: &Address,
        payment_amount: i128,
        now: u64,
        paid: Result<(), SettlementError>,
        transfers: Result<(), SettlementError>,
        payouts_done: &Vec<bool>,
        fee_collected: Result<(), SettlementError>,
    ) -> (r: Result<ExecutionResult, SettlementError>)
        requires
            valid(old(self)@),
        ensures
            valid(final(self)@),
            final(self)@.guard == old(self)@.guard,
            r == guarded_sale_outcome(
                old(self)@,
                transaction_id,
                *buyer,
                payment_amount,
                now,
                paid,
                transfers,
                payouts_done@,
                fee_collected,
            ),
            r is Err ==> final(self)@ == old(self)@,
            r is Ok ==> final(self)@ == after_sale_execution(
                old(self)@,
                transaction_id,
                *buyer,
                now,
            ),
            r is Ok ==> has_sale(final(self)@.sales, transaction_id) && sale_of(
                final(self)@.sales,
                transaction_id,
            ) == executed_sale(sale_of(old(self)@.sales, transaction_id), *buyer),
            r is Ok ==> has_swap(final(self)@.swaps.swaps, transaction_id) && swap_of(
                final(self)@.swaps.swaps,
                transaction_id,
            ) == after_purchase(
                swap_of(old(self)@.swaps.swaps, transaction_id),
                *buyer,
                sale_of(old(self)@.sales, transaction_id).currency,
                now,
            ),
    {
        let mut sale = match self.checked_sale(transaction_id, payment_amount, now) {
            Ok(sale) => sale,
            Err(e) => {
                return Err(e);
            },
        };
        let purchase = match self.swaps.purchase_transfers(
            &self.guard,
            transaction_id,
            buyer,
            &sale.currency,
            sale.price,
            now,
        ) {
            Ok(p) => p,
            Err(e) => {
                return Err(e);
            },
        };
        if purchase.payment.is_some() {
            match paid {
                Ok(_) => {},
                Err(e) => {
                    return Err(e);
                },
            }
        }
        match transfers {
            Ok(_) => {},
            Err(e) => {
                return Err(e);
            },
        }
        let distribution = match RoyaltyDistributor::distribute_royalties(
            transaction_id,
            &sale.royalty_info,
            &sale.currency,
            now,
            payouts_done,
        ) {
            Ok(d) => d,
            Err(e) => {
                return Err(e);
            },
        };
        if sale.platform_fee < 0 {
            return Err(SettlementError::InvalidAmount);
        }
        match fee_collected {
            Ok(_) => {},
            Err(e) => {
                return Err(e);
            },
        }
        match self.fees.get_accumulated_fees(&sale.currency).checked_add(sale.platform_fee) {
            Some(_) => {},
            None => {
                return Err(SettlementError::InvalidAmount);
            },
        }
        self.fees.record_trade(&sale.seller, buyer, sale.price);
        match self.swaps.purchase(
            &mut self.guard,
            transaction_id,
            buyer,
            &sale.currency,
            now,
            paid,
            transfers,
        ) {
            Ok(_) => {},
            Err(e) => {
                return Err(e);
            },
        }
        match self.fees.collect_platform_fee(
            sale.platform_fee,
            &sale.currency,
            buyer,
            fee_collected,
        ) {
            Ok(_) => {},
            Err(e) => {
                return Err(e);
            },
        }
        sale.buyer = Some(buyer.clone());
        sale.state = TransactionState::Executed;
        match self.sales.update(sale) {
            Ok(_) => {},
            Err(e) => {
                return Err(e);
            },
        }
        Ok(
            ExecutionResult {
                transaction_id,
                success: true,
                transferred_nft: true,
                transferred_payment: true,
                distributed_royalties: distribution.distribution_success,
                collected_platform_fee: true,
                timestamp: now,
            },
        )
    }

    /// Creates a trade at `now`: the initiator offers `initiator_nfts`
    /// against `counterparty_nfts`, to `counterparty` or to whoever accepts.
    ///
    /// Fails with `Reentrant` where the initiator is inside the operation
    /// already, and with `InvalidAmount` where nothing is offered, where the
    /// end of the trade cannot be held in a `u64`, and where no identifier
    /// is left. On failure nothing changes. Otherwise the trade is recorded
    /// as `Pending` under the next identifier.
    pub fn create_trade(
        &mut self,
        now: u64,
        initiator: &Address,
        counterparty: Option<Address>,
        initiator_nfts: Vec<NFTItem>,
        counterparty_nfts: Vec<NFTItem>,
        duration_seconds: u64,
    ) -> (r: Result<u64, SettlementError>)
        requires
            valid(old(self)@),
        ensures
            valid(final(self)@),
            r == behind_guard(
                old(self)@.guard,
                *initiator,
                Operation::CreateTrade,
                listing_outcome(
                    initiator_nfts@.len() as int,
                    now,
                    duration_seconds,
                    next_trade_id(old(self)@.trades),
                ),
            ),
            r is Err ==> final(self)@ == old(self)@,
            r is Ok ==> final(self)@ == (SettlementView {
                trades: old(self)@.trades.push(
                    TradeView {
                        trade_id: r->Ok_0,
                        initiator: *initiator,
                        counterparty,
                        initiator_nfts: initiator_nfts@,
                        counterparty_nfts: counterparty_nfts@,
                        state: TransactionState::Pending,
                        created_at: now,
                        expires_at: (now + duration_seconds) as u64,
                        platform_fee: 0,
                    },
                ),
                ..old(self)@
            }),
    {
        match self.guard.enter(initiator, Operation::CreateTrade) {
            Err(e) => {
                return Err(e);
            },
            Ok(_) => {},
        }
        let r = self.create_trade_guarded(
            now,
            initiator,
            counterparty,
            initiator_nfts,
            counterparty_nfts,
            duration_seconds,
        );
        self.guard.exit(initiator, Operation::CreateTrade);
        proof {
            release_undoes_acquire(old(self)@.guard, (*initiator, Operation::CreateTrade));
        }
        r
    }

    /// The creation of a trade, inside the guard.
    fn create_trade_guarded(
        &mut self,
        now: u64,
        initiator: &Address,
        counterparty: Option<Address>,
        initiator_nfts: Vec<NFTItem>,
        counterparty_nfts: Vec<NFTItem>,
        duration_seconds: u64,
    ) -> (r: Result<u64, SettlementError>)
        requires
            valid(old(self)@),
        ensures
            valid(final(self)@),
            r == listing_outcome(
                initiator_nfts@.len() as int,
                now,
                duration_seconds,
                next_trade_id(old(self)@.trades),
            ),
            r is Err ==> final(self)@ == old(self)@,
            r is Ok ==> final(self)@ == (SettlementView {
                trades: old(self)@.trades.push(
                    TradeView {
                        trade_id: r->Ok_0,
                        initiator: *initiator,
                        counterparty,
                        initiator_nfts: initiator_nfts@,
                        counterparty_nfts: counterparty_nfts@,
                        state: TransactionState::Pending,
                        created_at: now,
                        expires_at: (now + duration_seconds) as u64,
                        platform_fee: 0,
                    },
                ),
                ..old(self)@
            }),
    {
        if initiator_nfts.len() == 0 || duration_seconds > u64::MAX - now {
            return Err(SettlementError::InvalidAmount);
        }
        let trade_id: u64 = match self.trades.next_id() {
            Some(id) => id,
            None => {
                return Err(SettlementError::InvalidAmount);
            },
        };
        let trade = TradeTransaction {
            trade_id,
            initiator: initiator.clone(),
            counterparty,
            initiator_nfts,
            counterparty_nfts,
            state: TransactionState::Pending,
            created_at: now,
            expires_at: now + duration_seconds,
            platform_fee: 0,
        };
        match self.trades.put(trade) {
            Ok(_) => {},
            Err(e) => {
                return Err(e);
            },
        }
        Ok(trade_id)
    }

    /// Accepts a trade at `now`: the acceptor becomes its counterparty and
    /// the trade is `Funded`. Fails with `Reentrant` where the acceptor is
    /// inside the operation already, else as `accept_outcome` says; on
    /// failure nothing changes.
    pub fn accept_trade(&mut self, trade_id: u64, acceptor: &Address, now: u64) -> (r: Result<
        (),
        SettlementError,
    >)
        requires
            valid(old(self)@),
        ensures
            valid(final(self)@),
            r == behind_guard(
                old(self)@.guard,
                *acceptor,
                Operation::AcceptTrade,
                accept_outcome(old(self)@.trades, trade_id, now),
            ),
            r is Err ==> final(self)@ == old(self)@,
            r is Ok ==> final(self)@ == (SettlementView {
                trades: old(self)@.trades.update(
                    trade_id - 1,
                    TradeView {
                        counterparty: Some(*acceptor),
                        state: TransactionState::Funded,
                        ..trade_of(old(self)@.trades, trade_id)
                    },
                ),
                ..old(self)@
            }),
    {
        match self.guard.enter(acceptor, Operation::AcceptTrade) {
            Err(e) => {
                return Err(e);
            },
            Ok(_) => {},
        }
        let r = self.accept_trade_guarded(trade_id, acceptor, now);
        self.guard.exit(acceptor, Operation::AcceptTrade);
        proof {
            release_undoes_acquire(old(self)@.guard, (*acceptor, Operation::AcceptTrade));
        }
        r
    }

    /// The acceptance of a trade, inside the guard.
    fn accept_trade_guarded(&mut self, trade_id: u64, acceptor: &Address, now: u64) -> (r: Result<
        (),
        SettlementError,
    >)
        requires
            valid(old(self)@),
        ensures
            valid(final(self)@),
            r == accept_outcome(old(self)@.trades, trade_id, now),
            r is Err ==> final(self)@ == old(self)@,
            r is Ok ==> final(self)@ == (SettlementView {
                trades: old(self)@.trades.update(
                    trade_id - 1,
                    TradeView {
                        counterparty: Some(*acceptor),
                        state: TransactionState::Funded,
                        ..trade_of(old(self)@.trades, trade_id)
                    },
                ),
                ..old(self)@
            }),
    {
        let mut trade = match self.trades.get(trade_id) {
            Ok(t) => t,
            Err(e) => {
                return Err(e);
            },
        };
        if trade.state != TransactionState::Pending {
            return Err(SettlementError::InvalidState);
        }
        if now > trade.expires_at {
            return Err(SettlementError::Expired);
        }
        trade.counterparty = Some(acceptor.clone());
        trade.state = TransactionState::Funded;
        match self.trades.update(trade) {
            Ok(_) => Ok(()),
            Err(e) => Err(e),
        }
    }

    /// Executes a trade that was accepted: it becomes `Executed`. Fails with
    /// `Reentrant` where the executor is inside the operation already, else
    /// as `trade_execution_outcome` says; on failure nothing changes.
    pub fn execute_trade(&mut self, trade_id: u64, executor: &Address) -> (r: Result<
        (),
        SettlementError,
    >)
        requires
            valid(old(self)@),
        ensures
            valid(final(self)@),
            r == behind_guard(
                old(self)@.guard,
                *executor,
                Operation::ExecuteTrade,
                trade_execution_outcome(old(self)@.trades, trade_id),
            ),
            r is Err ==> final(self)@ == old(self)@,
            r is Ok ==> final(self)@ == (SettlementView {
                trades: old(self)@.trades.update(
                    trade_id - 1,
                    TradeView {
                        state: TransactionState::Executed,
                        ..trade_of(old(self)@.trades, trade_id)
                    },
                ),
                ..old(self)@
            }),
    {
        match self.guard.enter(executor, Operation::ExecuteTrade) {
            Err(e) => {
                return Err(e);
            },
            Ok(_) => {},
        }
        let r = self.execute_trade_guarded(trade_id);
        self.guard.exit(executor, Operation::ExecuteTrade);
        proof {
            release_undoes_acquire(old(self)@.guard, (*executor, Operation::ExecuteTrade));
        }
        r
    }

    /// The execution of a trade, inside the guard.
    fn execute_trade_guarded(&mut self, trade_id: u64) -> (r: Result<(), SettlementError>)
        requires
            valid(old(self)@),
        ensures
            valid(final(self)@),
            r == trade_execution_outcome(old(self)@.trades, trade_id),
            r is Err ==> final(self)@ == old(self)@,
            r is Ok ==> final(self)@ == (SettlementView {
                trades: old(self)@.trades.update(
                    trade_id - 1,
                    TradeView {
                        state: TransactionState::Executed,
                        ..trade_of(old(self)@.trades, trade_id)
                    },
                ),
                ..old(self)@
            }),
    {
        let mut trade = match self.trades.get(trade_id) {
            Ok(t) => t,
            Err(e) => {
                return Err(e);
            },
        };
        if trade.state != TransactionState::Funded {
            return Err(SettlementError::InvalidState);
        }
        trade.state = TransactionState::Executed;
        match self.trades.update(trade) {
            Ok(_) => Ok(()),
            Err(e) => Err(e),
        }
    }

    /// Creates a bundle sale at `now`: `items` for `total_price`.
    ///
    /// Fails with `Reentrant` where the seller is inside the operation
    /// already, and with `InvalidAmount` where the bundle is empty, where
    /// its end cannot be held in a `u64`, and where no identifier is left.
    /// On failure nothing changes. Otherwise the bundle is recorded as
    /// `Pending` under the next identifier.
    pub fn create_bundle(
        &mut self,
        now: u64,
        seller: &Address,
        items: Vec<NFTItem>,
        total_price: i128,
        currency: Asset,
        duration_seconds: u64,
    ) -> (r: Result<u64, SettlementError>)
        requires
            valid(old(self)@),
        ensures
            valid(final(self)@),
            r == behind_guard(
                old(self)@.guard,
                *seller,
                Operation::CreateBundle,
                listing_outcome(
                    items@.len() as int,
                    now,
                    duration_seconds,
                    next_bundle_id(old(self)@.bundles),
                ),
            ),
            r is Err ==> final(self)@ == old(self)@,
            r is Ok ==> final(self)@ == (SettlementView {
                bundles: old(self)@.bundles.push(
                    BundleView {
                        bundle_id: r->Ok_0,
                        seller: *seller,
                        buyer: None,
                        items: items@,
                        total_price,
                        currency,
                        state: TransactionState::Pending,
                        created_at: now,
                        expires_at: (now + duration_seconds) as u64,
                        platform_fee: 0,
                    },
                ),
                ..old(self)@
            }),
    {
        match self.guard.enter(seller, Operation::CreateBundle) {
            Err(e) => {
                return Err(e);
            },
            Ok(_) => {},
        }
        let r = self.create_bundle_guarded(now, seller, items, total_price, currency, duration_seconds);
        self.guard.exit(seller, Operation::CreateBundle);
        proof {
            release_undoes_acquire(old(self)@.guard, (*seller, Operation::CreateBundle));
        }
        r
    }

    /// The creation of a bundle, inside the guard.
    fn create_bundle_guarded(
        &mut self,
        now: u64,
        seller: &Address,
        items: Vec<NFTItem>,
        total_price: i128,
        currency: Asset,
        duration_seconds: u64,
    ) -> (r: Result<u64, SettlementError>)
        requires
            valid(old(self)@),
        ensures
            valid(final(self)@),
            r == listing_outcome(
                items@.len() as int,
                now,
                duration_seconds,
                next_bundle_id(old(self)@.bundles),
            ),
            r is Err ==> final(self)@ == old(self)@,
            r is Ok ==> final(self)@ == (SettlementView {
                bundles: old(self)@.bundles.push(
                    BundleView {
                        bundle_id: r->Ok_0,
                        seller: *seller,
                        buyer: None,
                        items: items@,
                        total_price,
                        currency,
                        state: TransactionState::Pending,
                        created_at: now,
                        expires_at: (now + duration_seconds) as u64,
                        platform_fee: 0,
                    },
                ),
                ..old(self)@
            }),
    {
        if items.len() == 0 || duration_seconds > u64::MAX - now {
            return Err(SettlementError::InvalidAmount);
        }
        let bundle_id: u64 = match self.bundles.next_id() {
            Some(id) => id,
            None => {
                return Err(SettlementError::InvalidAmount);
            },
        };
        let bundle = BundleTransaction {
            bundle_id,
            seller: seller.clone(),
            buyer: None,
            items,
            total_price,
            currency,
            state: TransactionState::Pending,
            created_at: now,
            expires_at: now + duration_seconds,
            platform_fee: 0,
        };
        match self.bundles.put(bundle) {
            Ok(_) => {},
            Err(e) => {
                return Err(e);
            },
        }
        Ok(bundle_id)
    }

    /// Cancels a transaction of the kind that the symbol names on behalf of
    /// `canceller`.
    ///
    /// Only a sale, named by the symbol `sale`, can be cancelled, by its
    /// seller, while it is `Pending`: it becomes `Cancelled`. Fails with
    /// `Reentrant` where the canceller is inside the operation already,
    /// else as `cancel_outcome` says of the text of the symbol; on failure
    /// nothing changes.
    pub fn cancel_transaction(
        &mut self,
        transaction_id: u64,
        transaction_type: &Symbol,
        canceller: &Address,
    ) -> (r: Result<(), SettlementError>)
        requires
            valid(old(self)@),
        ensures
            valid(final(self)@),
            r == behind_guard(
                old(self)@.guard,
                *canceller,
                Operation::CancelTransaction,
                cancel_outcome(
                    old(self)@.sales,
                    transaction_id,
                    symbol_text(*transaction_type),
                    *canceller,
                ),
            ),
            r is Err ==> final(self)@ == old(self)@,
            r is Ok ==> final(self)@ == (SettlementView {
                sales: old(self)@.sales.update(
                    transaction_id - 1,
                    SaleTransaction {
                        state: TransactionState::Cancelled,
                        ..sale_of(old(self)@.sales, transaction_id)
                    },
                ),
                ..old(self)@
            }),
    {
        proof {
            reveal_strlit("sale");
        }
        let sale = new_symbol(canceller, "sale");
        let is_sale = same_symbol(transaction_type, &sale);
        self.cancel_behind_guard(transaction_id, is_sale, canceller)
    }

    /// Cancels a transaction of the kind `kind` on behalf of `canceller`,
    /// as `cancel_transaction` does for the symbol with that text.
    pub fn cancel_transaction_of(&mut self, transaction_id: u64, kind: &str, canceller: &Address) -> (r:
        Result<(), SettlementError>)
        requires
            valid(old(self)@),
        ensures
            valid(final(self)@),
            r == behind_guard(
                old(self)@.guard,
                *canceller,
                Operation::CancelTransaction,
                cancel_outcome(old(self)@.sales, transaction_id, kind@, *canceller),
            ),
            r is Err ==> final(self)@ == old(self)@,
            r is Ok ==> final(self)@ == (SettlementView {
                sales: old(self)@.sales.update(
                    transaction_id - 1,
                    SaleTransaction {
                        state: TransactionState::Cancelled,
                        ..sale_of(old(self)@.sales, transaction_id)
                    },
                ),
                ..old(self)@
            }),
    {
        let is_sale = kind.to_owned() == "sale".to_owned();
        self.cancel_behind_guard(transaction_id, is_sale, canceller)
    }

    /// The cancellation behind the guard.
    fn cancel_behind_guard(&mut self, transaction_id: u64, is_sale: bool, canceller: &Address) -> (r:
        Result<(), SettlementError>)
        requires
            valid(old(self)@),
        ensures
            valid(final(self)@),
            r == behind_guard(
                old(self)@.guard,
                *canceller,
                Operation::CancelTransaction,
                sale_cancel_outcome(old(self)@.sales, transaction_id, is_sale, *canceller),
            ),
            r is Err ==> final(self)@ == old(self)@,
            r is Ok ==> final(self)@ == (SettlementView {
                sales: old(self)@.sales.update(
                    transaction_id - 1,
                    SaleTransaction {
                        state: TransactionState::Cancelled,
                        ..sale_of(old(self)@.sales, transaction_id)
                    },
                ),
                ..old(self)@
            }),
    {
        match self.guard.enter(canceller, Operation::CancelTransaction) {
            Err(e) => {
                return Err(e);
            },
            Ok(_) => {},
        }
        let r = self.cancel_guarded(transaction_id, is_sale, canceller);
        self.guard.exit(canceller, Operation::CancelTransaction);
        proof {
            release_undoes_acquire(old(self)@.guard, (*canceller, Operation::CancelTransaction));
        }
        r
    }

    /// The cancellation, inside the guard.
    fn cancel_guarded(&mut self, transaction_id: u64, is_sale: bool, canceller: &Address) -> (r:
        Result<(), SettlementError>)
        requires
            valid(old(self)@),
        ensures
            valid(final(self)@),
            r == sale_cancel_outcome(old(self)@.sales, transaction_id, is_sale, *canceller),
            r is Err ==> final(self)@ == old(self)@,
            r is Ok ==> final(self)@ == (SettlementView {
                sales: old(self)@.sales.update(
                    transaction_id - 1,
                    SaleTransaction {
                        state: TransactionState::Cancelled,
                        ..sale_of(old(self)@.sales, transaction_id)
                    },
                ),
                ..old(self)@
            }),
    {
        if !is_sale {
            return Err(SettlementError::InvalidAmount);
        }
        let mut sale = match self.sales.get(transaction_id) {
            Ok(s) => s,
            Err(e) => {
                return Err(e);
            },
        };
        if !same_address(&sale.seller, canceller) {
            return Err(SettlementError::Unauthorized);
        }
        if sale.state != TransactionState::Pending {
            return Err(SettlementError::InvalidState);
        }
        sale.state = TransactionState::Cancelled;
        match self.sales.update(sale) {
            Ok(_) => Ok(()),
            Err(e) => Err(e),
        }
    }

    /// The refunds that an emergency withdrawal on behalf of `admin`
    /// needs, or why it is turned down before any asset moves:
    /// `Unauthorized` where the caller is not the administrator,
    /// `InvalidState` where emergency withdrawals are disabled, `NotFound`
    /// where the transaction has no swap.
    pub fn emergency_refunds(&self, transaction_id: u64, admin: &Address) -> (r: Result<
        Vec<AssetTransfer>,
        SettlementError,
    >)
        ensures
            emergency_outcome(self@, transaction_id, *admin, Ok(())) is Err ==> r is Err
                && r->Err_0 == emergency_outcome(self@, transaction_id, *admin, Ok(()))->Err_0,
            emergency_outcome(self@, transaction_id, *admin, Ok(())) is Ok ==> r is Ok
                && r->Ok_0@ == refunds(
                swap_of(self@.swaps.swaps, transaction_id),
                self@.swaps.custody,
            ),
    {
        match self.check_admin(admin) {
            Ok(_) => {},
            Err(e) => {
                return Err(e);
            },
        }
        let enabled: bool = match self.admin.get() {
            Some(c) => c.emergency_withdrawal_enabled,
            None => false,
        };
        if !enabled {
            return Err(SettlementError::InvalidState);
        }
        self.swaps.emergency_transfers(transaction_id)
    }

    /// Takes the assets of a stuck transaction out of escrow on behalf of
    /// the administrator, the refunds having come to `refunded`. See
    /// `emergency_outcome` for the failures, on which nothing changes. On
    /// success the swap is `Failed` and the record of the withdrawal is
    /// returned for the host to publish.
    pub fn emergency_withdraw(
        &mut self,
        transaction_id: u64,
        reason: Bytes,
        admin: &Address,
        now: u64,
        refunded: Result<(), SettlementError>,
    ) -> (r: Result<EmergencyWithdrawalEvent, SettlementError>)
        requires
            valid(old(self)@),
        ensures
            valid(final(self)@),
            emergency_outcome(old(self)@, transaction_id, *admin, refunded) is Err ==> r is Err
                && r->Err_0 == emergency_outcome(
                old(self)@,
                transaction_id,
                *admin,
                refunded,
            )->Err_0,
            emergency_outcome(old(self)@, transaction_id, *admin, refunded) is Ok ==> r is Ok
                && r->Ok_0 == (EmergencyWithdrawalEvent {
                transaction_id,
                admin: *admin,
                reason,
                timestamp: now,
            }),
            r is Err ==> final(self)@ == old(self)@,
            r is Ok ==> final(self)@ == (SettlementView {
                swaps: with_swap(
                    old(self)@.swaps,
                    transaction_id,
                    after_failure(swap_of(old(self)@.swaps.swaps, transaction_id)),
                ),
                ..old(self)@
            }),
    {
        match self.check_admin(admin) {
            Ok(_) => {},
            Err(e) => {
                return Err(e);
            },
        }
        let enabled: bool = match self.admin.get() {
            Some(c) => c.emergency_withdrawal_enabled,
            None => false,
        };
        if !enabled {
            return Err(SettlementError::InvalidState);
        }
        self.swaps.emergency_withdraw(transaction_id, admin, reason, now, refunded)
    }

    /// Replaces the fee configuration on behalf of the administrator.
    /// Fails with `Unauthorized` where the caller is not the administrator,
    /// and with `InvalidAmount` where the configuration is not acceptable;
    /// on failure nothing changes.
    pub fn update_fee_config(&mut self, new_config: FeeConfig, admin: &Address) -> (r: Result<
        (),
        SettlementError,
    >)
        ensures
            admin_check(old(self)@.admin_config, *admin) is Err ==> r == Err::<
                (),
                SettlementError,
            >(SettlementError::Unauthorized),
            admin_check(old(self)@.admin_config, *admin) is Ok && !acceptable(new_config@) ==> r
                == Err::<(), SettlementError>(SettlementError::InvalidAmount),
            admin_check(old(self)@.admin_config, *admin) is Ok && acceptable(new_config@) ==> r
                is Ok,
            r is Err ==> final(self)@ == old(self)@,
            r is Ok ==> final(self)@ == (SettlementView {
                fees: FeeManagerView { config: Some(new_config@), ..old(self)@.fees },
                ..old(self)@
            }),
    {
        self.fees.update_fee_config(new_config, admin, &self.admin)
    }

    /// The transfer that pays the collected fees of the asset to
    /// `recipient`, or `Unauthorized` where the caller is not the
    /// administrator.
    pub fn fee_withdrawal(&self, asset: &Asset, recipient: &Address, admin: &Address) -> (r: Result<
        AssetTransfer,
        SettlementError,
    >)
        ensures
            admin_check(self@.admin_config, *admin) is Err ==> r == Err::<
                AssetTransfer,
                SettlementError,
            >(SettlementError::Unauthorized),
            admin_check(self@.admin_config, *admin) is Ok ==> r == Ok::<
                AssetTransfer,
                SettlementError,
            >(
                AssetTransfer::Tokens {
                    contract: asset.contract,
                    from: self@.swaps.custody,
                    to: *recipient,
                    amount: held(self@.fees.accumulated, *asset),
                },
            ),
    {
        self.fees.withdrawal_transfer(asset, recipient, self.swaps.custody(), admin, &self.admin)
    }

    /// Withdraws the collected fees of the asset on behalf of the
    /// administrator, the transfer to the recipient having come to `paid`:
    /// returns what was collected and sets the balance to zero. Fails with
    /// `Unauthorized` where the caller is not the administrator; a failed
    /// transfer is handed back. On failure nothing changes.
    pub fn withdraw_platform_fees(
        &mut self,
        asset: &Asset,
        recipient: &Address,
        admin: &Address,
        paid: Result<(), SettlementError>,
    ) -> (r: Result<i128, SettlementError>)
        ensures
            admin_check(old(self)@.admin_config, *admin) is Err ==> r == Err::<
                i128,
                SettlementError,
            >(SettlementError::Unauthorized),
            admin_check(old(self)@.admin_config, *admin) is Ok && paid is Err ==> r == Err::<
                i128,
                SettlementError,
            >(paid->Err_0),
            admin_check(old(self)@.admin_config, *admin) is Ok && paid is Ok ==> r == Ok::<
                i128,
                SettlementError,
            >(held(old(self)@.fees.accumulated, *asset)),
            r is Err ==> final(self)@ == old(self)@,
            r is Ok && has_key(old(self)@.fees.accumulated, *asset) ==> final(self)@ == (
            SettlementView {
                fees: FeeManagerView {
                    accumulated: with_amount(old(self)@.fees.accumulated, *asset, 0),
                    ..old(self)@.fees
                },
                ..old(self)@
            }),
            r is Ok && !has_key(old(self)@.fees.accumulated, *asset) ==> final(self)@ == old(self)@,
    {
        self.fees.withdraw_platform_fees(asset, admin, &self.admin, paid)
    }
}


/// What the cancellation of a trade comes to once the guard has let the
/// canceller in: the trade must exist (`NotFound`), the canceller must be
/// its initiator (`Unauthorized`), and it must be `Pending`
/// (`InvalidState`).
pub open spec fn trade_cancel_outcome(
    trades: Seq<TradeView>,
    trade_id: u64,
    canceller: Address,
) -> Result<(), SettlementError> {
    if !has_trade(trades, trade_id) {
        Err(SettlementError::NotFound)
    } else if trade_of(trades, trade_id).initiator != canceller {
        Err(SettlementError::Unauthorized)
    } else if trade_of(trades, trade_id).state != TransactionState::Pending {
        Err(SettlementError::InvalidState)
    } else {
        Ok(())
    }
}

/// What the cancellation of a bundle comes to once the guard has let the
/// canceller in: the bundle must exist (`NotFound`), the canceller must be
/// its seller (`Unauthorized`), and it must be `Pending` (`InvalidState`).
pub open spec fn bundle_cancel_outcome(
    bundles: Seq<BundleView>,
    bundle_id: u64,
    canceller: Address,
) -> Result<(), SettlementError> {
    if !has_bundle(bundles, bundle_id) {
        Err(SettlementError::NotFound)
    } else if bundle_of(bundles, bundle_id).seller != canceller {
        Err(SettlementError::Unauthorized)
    } else if bundle_of(bundles, bundle_id).state != TransactionState::Pending {
        Err(SettlementError::InvalidState)
    } else {
        Ok(())
    }
}

impl MarketplaceSettlement {
    /// Cancels a trade on behalf of its initiator while it is `Pending`: it
    /// becomes `Cancelled`. Fails with `Reentrant` where the canceller is
    /// inside a cancellation already, else as `trade_cancel_outcome` says;
    /// on failure nothing changes.
    pub fn cancel_trade(&mut self, trade_id: u64, canceller: &Address) -> (r: Result<
        (),
        SettlementError,
    >)
        requires
            valid(old(self)@),
        ensures
            valid(final(self)@),
            r == behind_guard(
                old(self)@.guard,
                *canceller,
                Operation::CancelTransaction,
                trade_cancel_outcome(old(self)@.trades, trade_id, *canceller),
            ),
            r is Err ==> final(self)@ == old(self)@,
            r is Ok ==> final(self)@ == (SettlementView {
                trades: old(self)@.trades.update(
                    trade_id - 1,
                    TradeView {
                        state: TransactionState::Cancelled,
                        ..trade_of(old(self)@.trades, trade_id)
                    },
                ),
                ..old(self)@
            }),
    {
        match self.guard.enter(canceller, Operation::CancelTransaction) {
            Err(e) => {
                return Err(e);
            },
            Ok(_) => {},
        }
        let r = self.cancel_trade_guarded(trade_id, canceller);
        self.guard.exit(canceller, Operation::CancelTransaction);
        proof {
            release_undoes_acquire(old(self)@.guard, (*canceller, Operation::CancelTransaction));
        }
        r
    }

    /// The cancellation of a trade, inside the guard.
    fn cancel_trade_guarded(&mut self, trade_id: u64, canceller: &Address) -> (r: Result<
        (),
        SettlementError,
    >)
        requires
            valid(old(self)@),
        ensures
            valid(final(self)@),
            r == trade_cancel_outcome(old(self)@.trades, trade_id, *canceller),
            r is Err ==> final(self)@ == old(self)@,
            r is Ok ==> final(self)@ == (SettlementView {
                trades: old(self)@.trades.update(
                    trade_id - 1,
                    TradeView {
                        state: TransactionState::Cancelled,
                        ..trade_of(old(self)@.trades, trade_id)
                    },
                ),
                ..old(self)@
            }),
    {
        let mut trade = match self.trades.get(trade_id) {
            Ok(t) => t,
            Err(e) => {
                return Err(e);
            },
        };
        if !same_address(&trade.initiator, canceller) {
            return Err(SettlementError::Unauthorized);
        }
        if trade.state != TransactionState::Pending {
            return Err(SettlementError::InvalidState);
        }
        trade.state = TransactionState::Cancelled;
        match self.trades.update(trade) {
            Ok(_) => Ok(()),
            Err(e) => Err(e),
        }
    }

    /// Cancels a bundle on behalf of its seller while it is `Pending`: it
    /// becomes `Cancelled`. Fails with `Reentrant` where the canceller is
    /// inside a cancellation already, else as `bundle_cancel_outcome` says;
    /// on failure nothing changes.
    pub fn cancel_bundle(&mut self, bundle_id: u64, canceller: &Address) -> (r: Result<
        (),
        SettlementError,
    >)
        requires
            valid(old(self)@),
        ensures
            valid(final(self)@),
            r == behind_guard(
                old(self)@.guard,
                *canceller,
                Operation::CancelTransaction,
                bundle_cancel_outcome(old(self)@.bundles, bundle_id, *canceller),
            ),
            r is Err ==> final(self)@ == old(self)@,
            r is Ok ==> final(self)@ == (SettlementView {
                bundles: old(self)@.bundles.update(
                    bundle_id - 1,
                    BundleView {
                        state: TransactionState::Cancelled,
                        ..bundle_of(old(self)@.bundles, bundle_id)
                    },
                ),
                ..old(self)@
            }),
    {
        match self.guard.enter(canceller, Operation::CancelTransaction) {
            Err(e) => {
                return Err(e);
            },
            Ok(_) => {},
        }
        let r = self.cancel_bundle_guarded(bundle_id, canceller);
        self.guard.exit(canceller, Operation::CancelTransaction);
        proof {
            release_undoes_acquire(old(self)@.guard, (*canceller, Operation::CancelTransaction));
        }
        r
    }

    /// The cancellation of a bundle, inside the guard.
    fn cancel_bundle_guarded(&mut self, bundle_id: u64, canceller: &Address) -> (r: Result<
        (),
        SettlementError,
    >)
        requires
            valid(old(self)@),
        ensures
            valid(final(self)@),
            r == bundle_cancel_outcome(old(self)@.bundles, bundle_id, *canceller),
            r is Err ==> final(self)@ == old(self)@,
            r is Ok ==> final(self)@ == (SettlementView {
                bundles: old(self)@.bundles.update(
                    bundle_id - 1,
                    BundleView {
                        state: TransactionState::Cancelled,
                        ..bundle_of(old(self)@.bundles, bundle_id)
                    },
                ),
                ..old(self)@
            }),
    {
        let mut bundle = match self.bundles.get(bundle_id) {
            Ok(b) => b,
            Err(e) => {
                return Err(e);
            },
        };
        if !same_address(&bundle.seller, canceller) {
            return Err(SettlementError::Unauthorized);
        }
        if bundle.state != TransactionState::Pending {
            return Err(SettlementError::InvalidState);
        }
        bundle.state = TransactionState::Cancelled;
        match self.bundles.update(bundle) {
            Ok(_) => Ok(()),
            Err(e) => Err(e),
        }
    }
}

} // verus!
