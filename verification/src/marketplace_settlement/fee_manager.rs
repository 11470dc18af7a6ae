//! The platform fee: how it is computed for a payer, collected into balances
//! per asset, and withdrawn.

use crate::host::same_address;
use crate::marketplace_settlement::error::SettlementError;
use crate::marketplace_settlement::math_utils::{
    calculate_percentage, fits_i128, percentage_of, safe_add,
};
use crate::marketplace_settlement::settlement_core::{admin_check, AdminRegistry};
use crate::marketplace_settlement::types::{
    AdminConfig, Asset, AssetTransfer, FeeConfig, FeeConfigView, VolumeTier,
};
use soroban_sdk::Address;
use vstd::prelude::*;

verus! {

/// Whether the table has an entry for `key`.
pub open spec fn has_key<K>(table: Seq<(K, i128)>, key: K) -> bool {
    exists|i: int| 0 <= i < table.len() && (#[trigger] table[i]).0 == key
}

/// Whether `i` is the place of the first entry for `key`.
pub open spec fn first_key_at<K>(table: Seq<(K, i128)>, key: K, i: int) -> bool {
    &&& 0 <= i < table.len()
    &&& table[i].0 == key
    &&& forall|j: int| 0 <= j < i ==> (#[trigger] table[j]).0 != key
}

/// The place of the entry for `key`.
pub open spec fn key_index<K>(table: Seq<(K, i128)>, key: K) -> int {
    choose|i: int| first_key_at(table, key, i)
}

/// The amount that the table holds for `key`, zero where it has no entry.
pub open spec fn held<K>(table: Seq<(K, i128)>, key: K) -> i128 {
    if has_key(table, key) {
        table[key_index(table, key)].1
    } else {
        0
    }
}

/// The table with the amount for `key` set: in place where the key has an
/// entry, at the end where it has none.
pub open spec fn with_amount<K>(table: Seq<(K, i128)>, key: K, amount: i128) -> Seq<(K, i128)> {
    if has_key(table, key) {
        table.update(key_index(table, key), (key, amount))
    } else {
        table.push((key, amount))
    }
}

/// The first entry for a key is the one that `key_index` names.
pub proof fn first_key_is_indexed<K>(table: Seq<(K, i128)>, key: K, i: int)
    requires
        first_key_at(table, key, i),
    ensures
        key_index(table, key) == i,
        has_key(table, key),
{
    let k = key_index(table, key);
    assert(first_key_at(table, key, k));
    if k < i {
        assert(table[k].0 != key);
    }
    if i < k {
        assert(table[i].0 != key);
    }
}

/// After an amount was set for a key, the table holds it for that key.
pub proof fn set_amount_is_held<K>(table: Seq<(K, i128)>, key: K, amount: i128)
    ensures
        held(with_amount(table, key, amount), key) == amount,
{
    let after = with_amount(table, key, amount);
    if has_key(table, key) {
        let k = key_index(table, key);
        let w = choose|i: int| 0 <= i < table.len() && (#[trigger] table[i]).0 == key;
        lemma_first_key_below(table, key, w);
        assert(first_key_at(table, key, k));
        assert forall|j: int| 0 <= j < k implies (#[trigger] after[j]).0 != key by {
            assert(after[j] == table[j]);
        }
        assert(first_key_at(after, key, k));
        first_key_is_indexed(after, key, k);
    } else {
        let k = table.len() as int;
        assert forall|j: int| 0 <= j < k implies (#[trigger] after[j]).0 != key by {
            assert(after[j] == table[j]);
        }
        assert(first_key_at(after, key, k));
        first_key_is_indexed(after, key, k);
    }
}

/// Below an entry for the key there is a first one.
proof fn lemma_first_key_below<K>(table: Seq<(K, i128)>, key: K, n: int)
    requires
        0 <= n < table.len(),
        table[n].0 == key,
    ensures
        first_key_at(table, key, key_index(table, key)),
    decreases n,
{
    if exists|j: int| 0 <= j < n && (#[trigger] table[j]).0 == key {
        let j = choose|j: int| 0 <= j < n && (#[trigger] table[j]).0 == key;
        lemma_first_key_below(table, key, j);
    } else {
        assert(first_key_at(table, key, n));
    }
}

/// The largest discount among the first `n` tiers that the volume reaches.
pub open spec fn best_discount(tiers: Seq<VolumeTier>, volume: i128, n: int) -> u64
    decreases n,
{
    if n <= 0 {
        0
    } else {
        let rest = best_discount(tiers, volume, n - 1);
        if tiers[n - 1].min_volume <= volume && tiers[n - 1].fee_discount_bps > rest {
            tiers[n - 1].fee_discount_bps
        } else {
            rest
        }
    }
}

/// The fee in basis points for a payer with the given volume: the platform
/// fee less the best discount, where discounts apply, and never below zero.
pub open spec fn effective_bps(config: FeeConfigView, volume: i128) -> u64 {
    let discount = if config.dynamic_fee_enabled {
        best_discount(config.volume_discounts, volume, config.volume_discounts.len() as int)
    } else {
        0
    };
    if discount >= config.platform_fee_bps {
        0
    } else {
        (config.platform_fee_bps - discount) as u64
    }
}

/// `raw` held between the least and the largest fee; the least fee wins
/// where the two cross.
pub open spec fn clamp_fee(raw: i128, minimum: i128, maximum: i128) -> i128 {
    if raw < minimum {
        minimum
    } else if raw > maximum {
        maximum
    } else {
        raw
    }
}

/// The platform fee on `price` for a payer: nothing for an exempt payer,
/// else the effective share of the price, held between the least and the
/// largest fee.
pub open spec fn fee_for(config: FeeConfigView, volume: i128, price: i128, payer: Address) -> i128 {
    if config.vip_exemptions.contains(payer) {
        0
    } else {
        clamp_fee(
            percentage_of(price as int, effective_bps(config, volume) as int) as i128,
            config.minimum_fee,
            config.maximum_fee,
        )
    }
}

/// Whether a fee configuration is acceptable: the fee is at most the whole
/// price, and the least fee is neither negative nor above the largest.
pub open spec fn acceptable(config: FeeConfigView) -> bool {
    config.platform_fee_bps <= 10000 && 0 <= config.minimum_fee <= config.maximum_fee
}

/// The records of the fee manager as contracts speak of them.
pub ghost struct FeeManagerView {
    pub config: Option<FeeConfigView>,
    /// The fees collected and not yet withdrawn, for each asset.
    pub accumulated: Seq<(Asset, i128)>,
    /// The volume traded, for each user.
    pub volumes: Seq<(Address, i128)>,
}

/// What the collection of a fee comes to: the amount must not be negative,
/// the transfer must have gone through, and the balance of the asset must
/// stay in the range of `i128`.
pub open spec fn collection_outcome(
    fees: FeeManagerView,
    amount: i128,
    asset: Asset,
    collected: Result<(), SettlementError>,
) -> Result<(), SettlementError> {
    if amount < 0 {
        Err(SettlementError::InvalidAmount)
    } else if collected is Err {
        collected
    } else if !fits_i128(held(fees.accumulated, asset) + amount) {
        Err(SettlementError::InvalidAmount)
    } else {
        Ok(())
    }
}

/// Fee manager: the fee configuration, the fees collected for each asset and
/// the volume of each user.
pub struct FeeManager {
    config: Option<FeeConfig>,
    accumulated: Vec<(Asset, i128)>,
    volumes: Vec<(Address, i128)>,
}

impl View for FeeManager {
    type V = FeeManagerView;

    closed spec fn view(&self) -> FeeManagerView {
        FeeManagerView {
            config: match self.config {
                Some(c) => Some(c@),
                None => None,
            },
            accumulated: self.accumulated@,
            volumes: self.volumes@,
        }
    }
}

impl FeeManager {
    /// A fee manager without configuration, fees or volumes.
    pub fn new() -> (r: Self)
        ensures
            r@.config is None,
            r@.accumulated == Seq::<(Asset, i128)>::empty(),
            r@.volumes == Seq::<(Address, i128)>::empty(),
    {
        FeeManager { config: None, accumulated: Vec::new(), volumes: Vec::new() }
    }

    /// The fee configuration, if one was set.
    pub fn config(&self) -> (r: Option<&FeeConfig>)
        ensures
            r is Some <==> self@.config is Some,
            r is Some ==> r->0@ == self@.config->0,
    {
        self.config.as_ref()
    }

    /// The place of the balance of the asset, if it has one.
    fn find_asset(&self, asset: &Asset) -> (r: Option<usize>)
        ensures
            r is Some <==> has_key(self@.accumulated, *asset),
            r is Some ==> r->0 < self@.accumulated.len() && key_index(self@.accumulated, *asset)
                == r->0 as int,
    {
        let mut i: usize = 0;
        while i < self.accumulated.len()
            invariant
                i <= self.accumulated.len(),
                forall|j: int| 0 <= j < i ==> (#[trigger] self@.accumulated[j]).0 != *asset,
            decreases self.accumulated.len() - i,
        {
            if self.accumulated[i].0.same(asset) {
                proof {
                    first_key_is_indexed(self@.accumulated, *asset, i as int);
                }
                return Some(i);
            }
            i += 1;
        }
        None
    }

    /// The place of the volume of the user, if it has one.
    fn find_user(&self, user: &Address) -> (r: Option<usize>)
        ensures
            r is Some <==> has_key(self@.volumes, *user),
            r is Some ==> r->0 < self@.volumes.len() && key_index(self@.volumes, *user)
                == r->0 as int,
    {
        let mut i: usize = 0;
        while i < self.volumes.len()
            invariant
                i <= self.volumes.len(),
                forall|j: int| 0 <= j < i ==> (#[trigger] self@.volumes[j]).0 != *user,
            decreases self.volumes.len() - i,
        {
            if same_address(&self.volumes[i].0, user) {
                proof {
                    first_key_is_indexed(self@.volumes, *user, i as int);
                }
                return Some(i);
            }
            i += 1;
        }
        None
    }

    /// The fees collected for the asset and not yet withdrawn.
    pub fn get_accumulated_fees(&self, asset: &Asset) -> (r: i128)
        ensures
            r == held(self@.accumulated, *asset),
    {
        match self.find_asset(asset) {
            Some(i) => self.accumulated[i].1,
            None => 0,
        }
    }

    /// The volume that the user has traded.
    pub fn get_user_volume(&self, user: &Address) -> (r: Result<i128, SettlementError>)
        ensures
            r == Ok::<i128, SettlementError>(held(self@.volumes, *user)),
    {
        match self.find_user(user) {
            Some(i) => Ok(self.volumes[i].1),
            None => Ok(0),
        }
    }

    /// Adds `amount` to the volume of the user, or fails with
    /// `InvalidAmount` and changes nothing where the amount is negative or
    /// the volume leaves the range of `i128`.
    pub fn record_volume(&mut self, user: &Address, amount: i128) -> (r: Result<
        (),
        SettlementError,
    >)
        ensures
            amount >= 0 && fits_i128(held(old(self)@.volumes, *user) + amount) ==> r is Ok
                && final(self)@ == (FeeManagerView {
                volumes: with_amount(
                    old(self)@.volumes,
                    *user,
                    (held(old(self)@.volumes, *user) + amount) as i128,
                ),
                ..old(self)@
            }),
            !(amount >= 0 && fits_i128(held(old(self)@.volumes, *user) + amount)) ==> r == Err::<
                (),
                SettlementError,
            >(SettlementError::InvalidAmount) && final(self)@ == old(self)@,
            r is Ok ==> held(final(self)@.volumes, *user) == held(old(self)@.volumes, *user)
                + amount,
    {
        proof {
            set_amount_is_held(
                self@.volumes,
                *user,
                (held(self@.volumes, *user) + amount) as i128,
            );
        }
        if amount < 0 {
            return Err(SettlementError::InvalidAmount);
        }
        match self.find_user(user) {
            Some(i) => {
                let sum: i128 = match safe_add(self.volumes[i].1, amount) {
                    Ok(s) => s,
                    Err(e) => {
                        return Err(e);
                    },
                };
                self.volumes.set(i, (user.clone(), sum));
            },
            None => {
                self.volumes.push((user.clone(), amount));
            },
        }
        Ok(())
    }

    /// Whether the payer is exempt from the fee.
    fn is_exempt(config: &FeeConfig, payer: &Address) -> (r: bool)
        ensures
            r == config@.vip_exemptions.contains(*payer),
    {
        let mut i: usize = 0;
        while i < config.vip_exemptions.len()
            invariant
                i <= config.vip_exemptions.len(),
                forall|j: int| 0 <= j < i ==> config.vip_exemptions@[j] != *payer,
            decreases config.vip_exemptions.len() - i,
        {
            if same_address(&config.vip_exemptions[i], payer) {
                assert(config.vip_exemptions@[i as int] == *payer);
                return true;
            }
            i += 1;
        }
        false
    }

    /// The largest discount among the tiers that the volume reaches.
    fn discount_for(tiers: &Vec<VolumeTier>, volume: i128) -> (r: u64)
        ensures
            r == best_discount(tiers@, volume, tiers@.len() as int),
    {
        let mut best: u64 = 0;
        let mut i: usize = 0;
        while i < tiers.len()
            invariant
                i <= tiers.len(),
                best == best_discount(tiers@, volume, i as int),
            decreases tiers.len() - i,
        {
            if tiers[i].min_volume <= volume && tiers[i].fee_discount_bps > best {
                best = tiers[i].fee_discount_bps;
            }
            i += 1;
        }
        best
    }

    /// The platform fee on `price` for `payer`, or `NotFound` where no fee
    /// configuration was set.
    pub fn calculate_fee(&self, price: i128, payer: &Address) -> (r: Result<i128, SettlementError>)
        ensures
            self@.config is None ==> r == Err::<i128, SettlementError>(SettlementError::NotFound),
            self@.config is Some ==> r == Ok::<i128, SettlementError>(
                fee_for(self@.config->0, held(self@.volumes, *payer), price, *payer),
            ),
    {
        let config = match &self.config {
            Some(c) => c,
            None => {
                return Err(SettlementError::NotFound);
            },
        };
        if Self::is_exempt(config, payer) {
            return Ok(0);
        }
        let volume: i128 = match self.find_user(payer) {
            Some(i) => self.volumes[i].1,
            None => 0,
        };
        let discount: u64 = if config.dynamic_fee_enabled {
            Self::discount_for(&config.volume_discounts, volume)
        } else {
            0
        };
        let bps: u64 = if discount >= config.platform_fee_bps {
            0
        } else {
            config.platform_fee_bps - discount
        };
        let raw: i128 = calculate_percentage(price, bps);
        if raw < config.minimum_fee {
            Ok(config.minimum_fee)
        } else if raw > config.maximum_fee {
            Ok(config.maximum_fee)
        } else {
            Ok(raw)
        }
    }

    /// The transfer that brings a fee from the payer into `custody`.
    pub fn fee_transfer(amount: i128, asset: &Asset, payer: &Address, custody: &Address) -> (r:
        AssetTransfer)
        ensures
            r == (AssetTransfer::Tokens {
                contract: asset.contract,
                from: *payer,
                to: *custody,
                amount,
            }),
    {
        AssetTransfer::Tokens {
            contract: asset.contract.clone(),
            from: payer.clone(),
            to: custody.clone(),
            amount,
        }
    }

    /// Books a fee whose transfer into custody came to `collected`: the
    /// balance of the asset grows by `amount`. See `collection_outcome` for
    /// the failures, on which nothing changes.
    pub fn collect_platform_fee(
        &mut self,
        amount: i128,
        asset: &Asset,
        payer: &Address,
        collected: Result<(), SettlementError>,
    ) -> (r: Result<(), SettlementError>)
        ensures
            r == collection_outcome(old(self)@, amount, *asset, collected),
            r is Err ==> final(self)@ == old(self)@,
            r is Ok ==> final(self)@ == (FeeManagerView {
                accumulated: with_amount(
                    old(self)@.accumulated,
                    *asset,
                    (held(old(self)@.accumulated, *asset) + amount) as i128,
                ),
                ..old(self)@
            }),
            r is Ok ==> held(final(self)@.accumulated, *asset) == held(
                old(self)@.accumulated,
                *asset,
            ) + amount,
    {
        proof {
            set_amount_is_held(
                self@.accumulated,
                *asset,
                (held(self@.accumulated, *asset) + amount) as i128,
            );
        }
        if amount < 0 {
            return Err(SettlementError::InvalidAmount);
        }
        let done: () = match collected {
            Ok(u) => u,
            Err(e) => {
                return Err(e);
            },
        };
        match self.find_asset(asset) {
            Some(i) => {
                let sum: i128 = match safe_add(self.accumulated[i].1, amount) {
                    Ok(s) => s,
                    Err(e) => {
                        return Err(e);
                    },
                };
                self.accumulated.set(i, (asset.clone(), sum));
            },
            None => {
                self.accumulated.push((asset.clone(), amount));
            },
        }
        Ok(done)
    }

    /// Replaces the fee configuration on behalf of `admin`, whom `registry`
    /// must name as the administrator. Fails with `Unauthorized` where it
    /// does not, and with `InvalidAmount` where the new configuration is
    /// not acceptable; on failure nothing changes.
    pub fn update_fee_config(
        &mut self,
        config: FeeConfig,
        admin: &Address,
        registry: &AdminRegistry,
    ) -> (r: Result<(), SettlementError>)
        ensures
            r == config_outcome(registry@, *admin, config@),
            r is Err ==> final(self)@ == old(self)@,
            r is Ok ==> final(self)@ == (FeeManagerView { config: Some(config@), ..old(self)@ }),
    {
        match registry.check(admin) {
            Ok(_) => {},
            Err(e) => {
                return Err(e);
            },
        }
        if config.platform_fee_bps > 10000 || config.minimum_fee < 0 || config.minimum_fee
            > config.maximum_fee {
            return Err(SettlementError::InvalidAmount);
        }
        self.config = Some(config);
        Ok(())
    }

    /// The transfer that pays the collected fees of the asset out of
    /// `custody` to `recipient` on behalf of `admin`, or `Unauthorized`
    /// where `registry` does not name `admin` as the administrator.
    pub fn withdrawal_transfer(
        &self,
        asset: &Asset,
        recipient: &Address,
        custody: &Address,
        admin: &Address,
        registry: &AdminRegistry,
    ) -> (r: Result<AssetTransfer, SettlementError>)
        ensures
            admin_check(registry@, *admin) is Err ==> r == Err::<AssetTransfer, SettlementError>(
                SettlementError::Unauthorized,
            ),
            admin_check(registry@, *admin) is Ok ==> r == Ok::<AssetTransfer, SettlementError>(
                AssetTransfer::Tokens {
                    contract: asset.contract,
                    from: *custody,
                    to: *recipient,
                    amount: held(self@.accumulated, *asset),
                },
            ),
    {
        match registry.check(admin) {
            Ok(_) => {},
            Err(e) => {
                return Err(e);
            },
        }
        Ok(
            AssetTransfer::Tokens {
                contract: asset.contract.clone(),
                from: custody.clone(),
                to: recipient.clone(),
                amount: self.get_accumulated_fees(asset),
            },
        )
    }

    /// Books the withdrawal of the collected fees of the asset on behalf of
    /// `admin`, the transfer to the recipient having come to `paid`:
    /// returns what was collected and sets the balance to zero. Fails with
    /// `Unauthorized` where `registry` does not name `admin` as the
    /// administrator; a failed transfer is handed back. On failure nothing
    /// changes.
    pub fn withdraw_platform_fees(
        &mut self,
        asset: &Asset,
        admin: &Address,
        registry: &AdminRegistry,
        paid: Result<(), SettlementError>,
    ) -> (r: Result<i128, SettlementError>)
        ensures
            r == withdrawal_outcome(old(self)@.accumulated, *asset, registry@, *admin, paid),
            r is Err ==> final(self)@ == old(self)@,
            r is Ok && has_key(old(self)@.accumulated, *asset) ==> final(self)@ == (
            FeeManagerView {
                accumulated: with_amount(old(self)@.accumulated, *asset, 0),
                ..old(self)@
            }),
            r is Ok && !has_key(old(self)@.accumulated, *asset) ==> final(self)@ == old(self)@,
            r is Ok ==> held(final(self)@.accumulated, *asset) == 0,
    {
        proof {
            set_amount_is_held(self@.accumulated, *asset, 0);
        }
        match registry.check(admin) {
            Ok(_) => {},
            Err(e) => {
                return Err(e);
            },
        }
        match paid {
            Ok(_) => {},
            Err(e) => {
                return Err(e);
            },
        }
        match self.find_asset(asset) {
            Some(i) => {
                let amount: i128 = self.accumulated[i].1;
                self.accumulated.set(i, (asset.clone(), 0));
                Ok(amount)
            },
            None => Ok(0),
        }
    }
}

/// What a change of the fee configuration comes to: the caller must be the
/// administrator (`Unauthorized`) and the configuration acceptable
/// (`InvalidAmount`).
pub open spec fn config_outcome(
    registry: Option<AdminConfig>,
    admin: Address,
    config: FeeConfigView,
) -> Result<(), SettlementError> {
    if admin_check(registry, admin) is Err {
        Err(SettlementError::Unauthorized)
    } else if !acceptable(config) {
        Err(SettlementError::InvalidAmount)
    } else {
        Ok(())
    }
}

/// What a withdrawal of the collected fees of an asset comes to: the caller
/// must be the administrator (`Unauthorized`) and the transfer must have
/// gone through; the result is what was collected.
pub open spec fn withdrawal_outcome(
    accumulated: Seq<(Asset, i128)>,
    asset: Asset,
    registry: Option<AdminConfig>,
    admin: Address,
    paid: Result<(), SettlementError>,
) -> Result<i128, SettlementError> {
    if admin_check(registry, admin) is Err {
        Err(SettlementError::Unauthorized)
    } else {
        match paid {
            Err(e) => Err(e),
            Ok(_) => Ok(held(accumulated, asset)),
        }
    }
}

impl FeeManager {
    /// The fee manager with the given records, as they were read from the
    /// ledger.
    pub fn restore(
        config: Option<FeeConfig>,
        accumulated: Vec<(Asset, i128)>,
        volumes: Vec<(Address, i128)>,
    ) -> (r: Self)
        ensures
            r@.config is Some <==> config is Some,
            config is Some ==> r@.config->0 == config->0@,
            r@.accumulated == accumulated@,
            r@.volumes == volumes@,
    {
        FeeManager { config, accumulated, volumes }
    }

    /// The fees collected and not yet withdrawn, for each asset.
    pub fn accumulated(&self) -> (r: &Vec<(Asset, i128)>)
        ensures
            r@ == self@.accumulated,
    {
        &self.accumulated
    }

    /// The volume traded, for each user.
    pub fn volumes(&self) -> (r: &Vec<(Address, i128)>)
        ensures
            r@ == self@.volumes,
    {
        &self.volumes
    }
}


/// What a trade of `amount` adds to a volume: the amount where it is
/// positive, nothing else.
pub open spec fn traded(amount: i128) -> i128 {
    if amount > 0 {
        amount
    } else {
        0
    }
}

/// A volume grown by a trade of `amount`, held at the largest `i128`.
pub open spec fn grown(volume: i128, amount: i128) -> i128 {
    if volume + traded(amount) > i128::MAX {
        i128::MAX
    } else {
        (volume + traded(amount)) as i128
    }
}

/// The volumes after the volume of `user` has grown by a trade of `amount`.
pub open spec fn volume_grown(volumes: Seq<(Address, i128)>, user: Address, amount: i128) -> Seq<
    (Address, i128),
> {
    with_amount(volumes, user, grown(held(volumes, user), amount))
}

/// The volumes after a trade of `amount` between `seller` and `buyer`: the
/// volume of each has grown by the amount, the seller's first.
pub open spec fn trade_volumes(
    volumes: Seq<(Address, i128)>,
    seller: Address,
    buyer: Address,
    amount: i128,
) -> Seq<(Address, i128)> {
    volume_grown(volume_grown(volumes, seller, amount), buyer, amount)
}

impl FeeManager {
    /// Lets the volume of `user` grow by a trade of `amount`.
    fn grow_volume(&mut self, user: &Address, amount: i128)
        ensures
            final(self)@ == (FeeManagerView {
                volumes: volume_grown(old(self)@.volumes, *user, amount),
                ..old(self)@
            }),
    {
        let gain: i128 = if amount > 0 {
            amount
        } else {
            0
        };
        match self.find_user(user) {
            Some(i) => {
                let sum: i128 = match self.volumes[i].1.checked_add(gain) {
                    Some(s) => s,
                    None => i128::MAX,
                };
                self.volumes.set(i, (user.clone(), sum));
            },
            None => {
                self.volumes.push((user.clone(), gain));
            },
        }
    }

    /// Books a trade of `amount` between `seller` and `buyer`: the volume
    /// of each grows by the amount, saturating at the largest `i128`. An
    /// amount that is not positive adds nothing.
    pub fn record_trade(&mut self, seller: &Address, buyer: &Address, amount: i128)
        ensures
            final(self)@ == (FeeManagerView {
                volumes: trade_volumes(old(self)@.volumes, *seller, *buyer, amount),
                ..old(self)@
            }),
    {
        self.grow_volume(seller, amount);
        self.grow_volume(buyer, amount);
    }
}

} // verus!
