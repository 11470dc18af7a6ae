//! Royalties: the share of a sale price that goes to the creator of a token,
//! how it is recorded, computed, paid out and checked.

use crate::host::{
    amount_for, distinct_recipients, empty_amounts, entries_after_put, get_amount, has_recipient,
    map_entries, put_amount, read_amounts, same_address, Amounts,
};
use crate::marketplace_settlement::error::SettlementError;
use crate::marketplace_settlement::events::RoyaltiesDistributedEvent;
use crate::marketplace_settlement::math_utils::{
    calculate_percentage, fits_i128, percentage_of, quotient, safe_add, safe_div, safe_mul,
    safe_sub,
};
use crate::marketplace_settlement::types::{
    Asset, AssetTransfer, DistributionResult, RoyaltyDistribution,
};
use soroban_sdk::Address;
use vstd::prelude::*;

verus! {

/// The largest royalty that can be recorded: half of the price.
pub const MAX_ROYALTY_BPS: u64 = 5000;

/// The share of a sale that is booked for the seller, in basis points.
pub const SELLER_SHARE_BPS: u64 = 9500;

/// The share of a sale that is booked for the platform, in basis points.
pub const PLATFORM_SHARE_BPS: u64 = 500;

/// Royalty information for one token.
#[derive(Debug)]
pub struct RoyaltyInfo {
    pub nft_contract: Address,
    pub token_id: u64,
    pub creator: Address,
    /// In basis points.
    pub royalty_percentage: u64,
    pub last_updated: u64,
}

impl Clone for RoyaltyInfo {
    fn clone(&self) -> (r: Self)
        ensures
            r == *self,
    {
        RoyaltyInfo {
            nft_contract: self.nft_contract.clone(),
            token_id: self.token_id,
            creator: self.creator.clone(),
            royalty_percentage: self.royalty_percentage,
            last_updated: self.last_updated,
        }
    }
}

/// Whether the record is the one of the token.
pub open spec fn is_record_of(info: RoyaltyInfo, nft_contract: Address, token_id: u64) -> bool {
    info.nft_contract == nft_contract && info.token_id == token_id
}

/// Whether the records hold one for the token.
pub open spec fn has_royalty(records: Seq<RoyaltyInfo>, nft_contract: Address, token_id: u64) -> bool {
    exists|i: int| 0 <= i < records.len() && is_record_of(#[trigger] records[i], nft_contract, token_id)
}

/// Whether `i` is the place of the first record of the token.
pub open spec fn first_record_at(
    records: Seq<RoyaltyInfo>,
    nft_contract: Address,
    token_id: u64,
    i: int,
) -> bool {
    &&& 0 <= i < records.len()
    &&& is_record_of(records[i], nft_contract, token_id)
    &&& forall|j: int| 0 <= j < i ==> !is_record_of(#[trigger] records[j], nft_contract, token_id)
}

/// The place of the record of the token.
pub open spec fn royalty_index(records: Seq<RoyaltyInfo>, nft_contract: Address, token_id: u64) -> int {
    choose|i: int| first_record_at(records, nft_contract, token_id, i)
}

/// The record of the token.
pub open spec fn royalty_of(
    records: Seq<RoyaltyInfo>,
    nft_contract: Address,
    token_id: u64,
) -> RoyaltyInfo {
    records[royalty_index(records, nft_contract, token_id)]
}

/// The first record of a token is the one that `royalty_index` names.
pub proof fn first_record_is_indexed(
    records: Seq<RoyaltyInfo>,
    nft_contract: Address,
    token_id: u64,
    i: int,
)
    requires
        first_record_at(records, nft_contract, token_id, i),
    ensures
        royalty_index(records, nft_contract, token_id) == i,
        has_royalty(records, nft_contract, token_id),
{
    let k = royalty_index(records, nft_contract, token_id);
    assert(first_record_at(records, nft_contract, token_id, k));
    if k < i {
        assert(!is_record_of(records[k], nft_contract, token_id));
    }
    if i < k {
        assert(!is_record_of(records[i], nft_contract, token_id));
    }
}

/// Below a record of the token there is a first one.
proof fn lemma_first_record_below(
    records: Seq<RoyaltyInfo>,
    nft_contract: Address,
    token_id: u64,
    n: int,
)
    requires
        0 <= n < records.len(),
        is_record_of(records[n], nft_contract, token_id),
    ensures
        exists|i: int| first_record_at(records, nft_contract, token_id, i),
    decreases n,
{
    if exists|j: int| 0 <= j < n && is_record_of(#[trigger] records[j], nft_contract, token_id) {
        let j = choose|j: int|
            0 <= j < n && is_record_of(#[trigger] records[j], nft_contract, token_id);
        lemma_first_record_below(records, nft_contract, token_id, j);
    } else {
        assert(first_record_at(records, nft_contract, token_id, n));
    }
}

/// Where the token has a record, `royalty_index` names its first one.
pub proof fn royalty_index_is_first(records: Seq<RoyaltyInfo>, nft_contract: Address, token_id: u64)
    requires
        has_royalty(records, nft_contract, token_id),
    ensures
        first_record_at(
            records,
            nft_contract,
            token_id,
            royalty_index(records, nft_contract, token_id),
        ),
{
    let n = choose|i: int|
        0 <= i < records.len() && is_record_of(#[trigger] records[i], nft_contract, token_id);
    lemma_first_record_below(records, nft_contract, token_id, n);
}

/// Whether the records are valid: one record per token at most, and no
/// royalty above the ceiling.
pub open spec fn valid_records(records: Seq<RoyaltyInfo>) -> bool {
    &&& forall|i: int|
        0 <= i < records.len() ==> (#[trigger] records[i]).royalty_percentage <= MAX_ROYALTY_BPS
    &&& forall|i: int, j: int|
        0 <= i < j < records.len() ==> !is_record_of(
            #[trigger] records[i],
            (#[trigger] records[j]).nft_contract,
            records[j].token_id,
        )
}

/// The records with the one of the token set to `info`: replaced where the
/// token has a record, added at the end where it has none.
pub open spec fn with_record(records: Seq<RoyaltyInfo>, info: RoyaltyInfo) -> Seq<RoyaltyInfo> {
    if has_royalty(records, info.nft_contract, info.token_id) {
        records.update(royalty_index(records, info.nft_contract, info.token_id), info)
    } else {
        records.push(info)
    }
}

/// What `set_royalty_info` comes to: the royalty must not exceed the
/// ceiling, and a record that exists can be replaced by its creator only.
pub open spec fn set_outcome(
    records: Seq<RoyaltyInfo>,
    nft_contract: Address,
    token_id: u64,
    royalty_percentage: u64,
    setter: Address,
) -> Result<(), SettlementError> {
    if royalty_percentage > MAX_ROYALTY_BPS {
        Err(SettlementError::InvalidRoyaltyPercentage)
    } else if has_royalty(records, nft_contract, token_id) && royalty_of(
        records,
        nft_contract,
        token_id,
    ).creator != setter {
        Err(SettlementError::Unauthorized)
    } else {
        Ok(())
    }
}

/// What `update_royalty_percentage` comes to: the token must have a record,
/// the updater must be its creator, and the royalty must not exceed the
/// ceiling.
pub open spec fn update_outcome(
    records: Seq<RoyaltyInfo>,
    nft_contract: Address,
    token_id: u64,
    new_percentage: u64,
    updater: Address,
) -> Result<(), SettlementError> {
    if !has_royalty(records, nft_contract, token_id) {
        Err(SettlementError::NotFound)
    } else if royalty_of(records, nft_contract, token_id).creator != updater {
        Err(SettlementError::Unauthorized)
    } else if new_percentage > MAX_ROYALTY_BPS {
        Err(SettlementError::InvalidRoyaltyPercentage)
    } else {
        Ok(())
    }
}

/// A record that was set is the record of its token.
pub proof fn set_record_is_found(records: Seq<RoyaltyInfo>, info: RoyaltyInfo)
    ensures
        has_royalty(with_record(records, info), info.nft_contract, info.token_id),
        royalty_of(with_record(records, info), info.nft_contract, info.token_id) == info,
{
    let after = with_record(records, info);
    if has_royalty(records, info.nft_contract, info.token_id) {
        royalty_index_is_first(records, info.nft_contract, info.token_id);
        let k = royalty_index(records, info.nft_contract, info.token_id);
        assert forall|j: int| 0 <= j < k implies !is_record_of(
            #[trigger] after[j],
            info.nft_contract,
            info.token_id,
        ) by {
            assert(after[j] == records[j]);
        }
        assert(first_record_at(after, info.nft_contract, info.token_id, k));
        first_record_is_indexed(after, info.nft_contract, info.token_id, k);
    } else {
        let k = records.len() as int;
        assert forall|j: int| 0 <= j < k implies !is_record_of(
            #[trigger] after[j],
            info.nft_contract,
            info.token_id,
        ) by {
            assert(after[j] == records[j]);
        }
        assert(first_record_at(after, info.nft_contract, info.token_id, k));
        first_record_is_indexed(after, info.nft_contract, info.token_id, k);
    }
}

/// Setting a valid record keeps the records valid.
proof fn lemma_with_record_valid(records: Seq<RoyaltyInfo>, info: RoyaltyInfo)
    requires
        valid_records(records),
        info.royalty_percentage <= MAX_ROYALTY_BPS,
    ensures
        valid_records(with_record(records, info)),
{
    let after = with_record(records, info);
    if has_royalty(records, info.nft_contract, info.token_id) {
        let k = royalty_index(records, info.nft_contract, info.token_id);
        royalty_index_is_first(records, info.nft_contract, info.token_id);
        assert forall|i: int, j: int| 0 <= i < j < after.len() implies !is_record_of(
            #[trigger] after[i],
            (#[trigger] after[j]).nft_contract,
            after[j].token_id,
        ) by {
            assert(is_record_of(after[i], records[i].nft_contract, records[i].token_id));
            assert(is_record_of(after[j], records[j].nft_contract, records[j].token_id));
            assert(!is_record_of(records[i], records[j].nft_contract, records[j].token_id));
        }
        assert forall|i: int| 0 <= i < after.len() implies (#[trigger] after[i]).royalty_percentage
            <= MAX_ROYALTY_BPS by {
            if i != k {
                assert(after[i] == records[i]);
            }
        }
    } else {
        assert forall|i: int, j: int| 0 <= i < j < after.len() implies !is_record_of(
            #[trigger] after[i],
            (#[trigger] after[j]).nft_contract,
            after[j].token_id,
        ) by {
            assert(after[i] == records[i]);
            if j < records.len() {
                assert(after[j] == records[j]);
            } else {
                assert(!is_record_of(records[i], info.nft_contract, info.token_id));
            }
        }
        assert forall|i: int| 0 <= i < after.len() implies (#[trigger] after[i]).royalty_percentage
            <= MAX_ROYALTY_BPS by {
            if i < records.len() {
                assert(after[i] == records[i]);
            }
        }
    }
}

/// Royalty distributor: the royalty records, one per token.
pub struct RoyaltyDistributor {
    records: Vec<RoyaltyInfo>,
}

impl View for RoyaltyDistributor {
    type V = Seq<RoyaltyInfo>;

    closed spec fn view(&self) -> Seq<RoyaltyInfo> {
        self.records@
    }
}

impl RoyaltyDistributor {
    /// A distributor without records.
    pub fn new() -> (r: Self)
        ensures
            r@ == Seq::<RoyaltyInfo>::empty(),
            valid_records(r@),
    {
        RoyaltyDistributor { records: Vec::new() }
    }

    /// The records, in the order in which their tokens were first set.
    pub fn records(&self) -> (r: &Vec<RoyaltyInfo>)
        ensures
            r@ == self@,
    {
        &self.records
    }

    /// The place of the record of the token, if it has one.
    fn find(&self, nft_contract: &Address, token_id: u64) -> (r: Option<usize>)
        ensures
            r is Some <==> has_royalty(self@, *nft_contract, token_id),
            r is Some ==> r->0 < self@.len() && first_record_at(
                self@,
                *nft_contract,
                token_id,
                r->0 as int,
            ) && royalty_index(self@, *nft_contract, token_id) == r->0 as int,
    {
        let mut i: usize = 0;
        while i < self.records.len()
            invariant
                i <= self.records.len(),
                forall|j: int|
                    0 <= j < i ==> !is_record_of(#[trigger] self@[j], *nft_contract, token_id),
            decreases self.records.len() - i,
        {
            if self.records[i].token_id == token_id && same_address(
                &self.records[i].nft_contract,
                nft_contract,
            ) {
                proof {
                    first_record_is_indexed(self@, *nft_contract, token_id, i as int);
                }
                return Some(i);
            }
            i += 1;
        }
        None
    }

    /// The royalty record of the token, or `NotFound`.
    pub fn get_royalty_info(&self, nft_contract: &Address, token_id: u64) -> (r: Result<
        RoyaltyInfo,
        SettlementError,
    >)
        ensures
            has_royalty(self@, *nft_contract, token_id) ==> r == Ok::<RoyaltyInfo, SettlementError>(
                royalty_of(self@, *nft_contract, token_id),
            ),
            !has_royalty(self@, *nft_contract, token_id) ==> r == Err::<
                RoyaltyInfo,
                SettlementError,
            >(SettlementError::NotFound),
    {
        match self.find(nft_contract, token_id) {
            Some(i) => Ok(self.records[i].clone()),
            None => Err(SettlementError::NotFound),
        }
    }

    /// Puts `info` in the place of the record of its token, or at the end.
    fn store_royalty_info(&mut self, info: RoyaltyInfo)
        ensures
            final(self)@ == with_record(old(self)@, info),
    {
        match self.find(&info.nft_contract, info.token_id) {
            Some(i) => {
                self.records.set(i, info);
            },
            None => {
                self.records.push(info);
            },
        }
    }

    /// Records the royalty of a token at `now`.
    ///
    /// Fails with `InvalidRoyaltyPercentage` above 5000 basis points, and
    /// with `Unauthorized` where the token has a record whose creator is not
    /// the setter. On failure the records stay as they were.
    pub fn set_royalty_info(
        &mut self,
        nft_contract: &Address,
        token_id: u64,
        creator: &Address,
        royalty_percentage: u64,
        setter: &Address,
        now: u64,
    ) -> (r: Result<(), SettlementError>)
        requires
            valid_records(old(self)@),
        ensures
            valid_records(final(self)@),
            r == set_outcome(old(self)@, *nft_contract, token_id, royalty_percentage, *setter),
            r is Err ==> final(self)@ == old(self)@,
            r is Ok ==> final(self)@ == with_record(
                old(self)@,
                RoyaltyInfo {
                    nft_contract: *nft_contract,
                    token_id,
                    creator: *creator,
                    royalty_percentage,
                    last_updated: now,
                },
            ),
            r is Ok ==> has_royalty(final(self)@, *nft_contract, token_id) && royalty_of(
                final(self)@,
                *nft_contract,
                token_id,
            ) == (RoyaltyInfo {
                nft_contract: *nft_contract,
                token_id,
                creator: *creator,
                royalty_percentage,
                last_updated: now,
            }),
    {
        if royalty_percentage > MAX_ROYALTY_BPS {
            return Err(SettlementError::InvalidRoyaltyPercentage);
        }
        match self.find(nft_contract, token_id) {
            Some(i) => {
                if !same_address(&self.records[i].creator, setter) {
                    return Err(SettlementError::Unauthorized);
                }
            },
            None => {},
        }
        let info = RoyaltyInfo {
            nft_contract: nft_contract.clone(),
            token_id,
            creator: creator.clone(),
            royalty_percentage,
            last_updated: now,
        };
        proof {
            lemma_with_record_valid(self@, info);
            set_record_is_found(self@, info);
        }
        self.store_royalty_info(info);
        Ok(())
    }

    /// Changes the royalty of a token at `now`.
    ///
    /// Fails with `NotFound` where the token has no record, with
    /// `Unauthorized` where the updater is not the recorded creator, and with
    /// `InvalidRoyaltyPercentage` above 5000 basis points. On failure the
    /// records stay as they were.
    pub fn update_royalty_percentage(
        &mut self,
        nft_contract: &Address,
        token_id: u64,
        new_percentage: u64,
        updater: &Address,
        now: u64,
    ) -> (r: Result<(), SettlementError>)
        requires
            valid_records(old(self)@),
        ensures
            valid_records(final(self)@),
            r == update_outcome(old(self)@, *nft_contract, token_id, new_percentage, *updater),
            r is Err ==> final(self)@ == old(self)@,
            r is Ok ==> final(self)@ == with_record(
                old(self)@,
                RoyaltyInfo {
                    royalty_percentage: new_percentage,
                    last_updated: now,
                    ..royalty_of(old(self)@, *nft_contract, token_id)
                },
            ),
            r is Ok ==> has_royalty(final(self)@, *nft_contract, token_id) && royalty_of(
                final(self)@,
                *nft_contract,
                token_id,
            ) == (RoyaltyInfo {
                royalty_percentage: new_percentage,
                last_updated: now,
                ..royalty_of(old(self)@, *nft_contract, token_id)
            }),
    {
        let mut info = match self.get_royalty_info(nft_contract, token_id) {
            Ok(info) => info,
            Err(e) => {
                return Err(e);
            },
        };
        if !same_address(&info.creator, updater) {
            return Err(SettlementError::Unauthorized);
        }
        if new_percentage > MAX_ROYALTY_BPS {
            return Err(SettlementError::InvalidRoyaltyPercentage);
        }
        info.royalty_percentage = new_percentage;
        info.last_updated = now;
        proof {
            royalty_index_is_first(self@, *nft_contract, token_id);
            lemma_with_record_valid(self@, info);
            set_record_is_found(self@, info);
        }
        self.store_royalty_info(info);
        Ok(())
    }

    /// What is known of the royalty of a token over time: its current record,
    /// or nothing where it has none.
    pub fn get_royalty_history(&self, nft_contract: &Address, token_id: u64) -> (r: Vec<
        RoyaltyInfo,
    >)
        ensures
            has_royalty(self@, *nft_contract, token_id) ==> r@ == seq![
                royalty_of(self@, *nft_contract, token_id),
            ],
            !has_royalty(self@, *nft_contract, token_id) ==> r@ == Seq::<RoyaltyInfo>::empty(),
    {
        let mut result: Vec<RoyaltyInfo> = Vec::new();
        match self.get_royalty_info(nft_contract, token_id) {
            Ok(info) => {
                result.push(info);
                assert(result@ =~= seq![info]);
            },
            Err(_) => {},
        }
        result
    }
}

/// The gross price that leaves `desired_net` once a royalty of `royalty_bps`
/// basis points is taken off it.
pub open spec fn gross_price(desired_net: int, royalty_bps: int) -> int {
    quotient(desired_net * 10000, 10000 - royalty_bps)
}

/// What the computation of a gross price comes to: `InvalidAmount` where the
/// royalty is the whole price or more, or where the net amount times ten
/// thousand leaves the range of `i128`.
pub open spec fn price_outcome(desired_net: i128, royalty_bps: u64) -> Result<
    i128,
    SettlementError,
> {
    if royalty_bps < 10000 && fits_i128(desired_net * 10000) {
        Ok(gross_price(desired_net as int, royalty_bps as int) as i128)
    } else {
        Err(SettlementError::InvalidAmount)
    }
}

/// The gross price for a net amount and a royalty: the net amount times ten
/// thousand, divided by ten thousand less the royalty.
///
/// Fails with `InvalidAmount` where the royalty is the whole price or more,
/// and where the product leaves the range of `i128`.
pub fn minimum_price(desired_net: i128, royalty_bps: u64) -> (r: Result<i128, SettlementError>)
    ensures
        r == price_outcome(desired_net, royalty_bps),
        r is Ok ==> fits_i128(gross_price(desired_net as int, royalty_bps as int)),
{
    if royalty_bps >= 10000 {
        return Err(SettlementError::InvalidAmount);
    }
    let denominator: i128 = 10000 - (royalty_bps as i128);
    let scaled: i128 = match safe_mul(desired_net, 10000) {
        Ok(v) => v,
        Err(e) => {
            return Err(e);
        },
    };
    proof {
        lemma_quotient_bounded(scaled as int, denominator as int);
    }
    safe_div(scaled, denominator)
}

/// Dividing by a positive number brings a value no further from zero.
pub proof fn lemma_quotient_bounded(a: int, b: int)
    requires
        b >= 1,
    ensures
        a >= 0 ==> 0 <= quotient(a, b) <= a,
        a < 0 ==> a <= quotient(a, b) <= 0,
{
    if a >= 0 {
        assert(0 <= a / b <= a) by (nonlinear_arith)
            requires
                a >= 0,
                b >= 1,
        ;
    } else {
        assert(0 <= (-a) / b <= -a) by (nonlinear_arith)
            requires
                a < 0,
                b >= 1,
        ;
    }
}

/// Royalty enforcement for ensuring royalties are paid.
pub struct RoyaltyEnforcer;

impl RoyaltyEnforcer {
    /// Checks that a sale price covers the royalty of the token.
    ///
    /// Fails with `NotFound` where the token has no royalty record, and with
    /// `InsufficientFunds` where the price is less than the royalty on it.
    pub fn enforce_royalty_payment(
        distributor: &RoyaltyDistributor,
        nft_contract: &Address,
        token_id: u64,
        sale_price: i128,
        payment_asset: &Asset,
    ) -> (r: Result<(), SettlementError>)
        ensures
            !has_royalty(distributor@, *nft_contract, token_id) ==> r == Err::<
                (),
                SettlementError,
            >(SettlementError::NotFound),
            has_royalty(distributor@, *nft_contract, token_id) && sale_price < percentage_of(
                sale_price as int,
                royalty_of(distributor@, *nft_contract, token_id).royalty_percentage as int,
            ) ==> r == Err::<(), SettlementError>(SettlementError::InsufficientFunds),
            has_royalty(distributor@, *nft_contract, token_id) && sale_price >= percentage_of(
                sale_price as int,
                royalty_of(distributor@, *nft_contract, token_id).royalty_percentage as int,
            ) ==> r == Ok::<(), SettlementError>(()),
    {
        let info = match distributor.get_royalty_info(nft_contract, token_id) {
            Ok(info) => info,
            Err(e) => {
                return Err(e);
            },
        };
        let royalty_amount: i128 = calculate_percentage(sale_price, info.royalty_percentage);
        if sale_price < royalty_amount {
            return Err(SettlementError::InsufficientFunds);
        }
        Ok(())
    }

    /// The gross price at which the seller of the token is left with
    /// `desired_net_amount` after the royalty.
    ///
    /// Fails with `NotFound` where the token has no royalty record, and with
    /// `InvalidAmount` as `minimum_price` does.
    pub fn calculate_minimum_price(
        distributor: &RoyaltyDistributor,
        nft_contract: &Address,
        token_id: u64,
        desired_net_amount: i128,
    ) -> (r: Result<i128, SettlementError>)
        ensures
            !has_royalty(distributor@, *nft_contract, token_id) ==> r == Err::<
                i128,
                SettlementError,
            >(SettlementError::NotFound),
            has_royalty(distributor@, *nft_contract, token_id) ==> r == price_outcome(
                desired_net_amount,
                royalty_of(distributor@, *nft_contract, token_id).royalty_percentage,
            ),
    {
        let info = match distributor.get_royalty_info(nft_contract, token_id) {
            Ok(info) => info,
            Err(e) => {
                return Err(e);
            },
        };
        minimum_price(desired_net_amount, info.royalty_percentage)
    }
}


/// For a net amount that is not negative, the gross price less the royalty
/// on it is the net amount again.
proof fn lemma_round_trip_nonnegative(net: int, bps: int)
    requires
        0 <= net,
        0 <= bps <= 5000,
    ensures
        ({
            let p = (net * 10000) / (10000 - bps);
            &&& 0 <= p <= net * 10000
            &&& 0 <= p * bps <= net * 10000
            &&& p - (p * bps) / 10000 == net
        }),
{
    let d = 10000 - bps;
    let x = net * 10000;
    let p = x / d;
    vstd::arithmetic::div_mod::lemma_fundamental_div_mod(x, d);
    let m = x % d;
    assert(0 <= m < d) by (nonlinear_arith)
        requires
            m == x % d,
            d > 0,
    ;
    assert(x == d * p + m);
    assert(p >= 0) by (nonlinear_arith)
        requires
            x == d * p + m,
            0 <= m < d,
            x >= 0,
            d > 0,
    ;
    assert(d * p == p * 10000 - p * bps) by (nonlinear_arith)
        requires
            d == 10000 - bps,
    ;
    assert(p * bps >= 0) by (nonlinear_arith)
        requires
            p >= 0,
            bps >= 0,
    ;
    assert(p * bps <= d * p) by (nonlinear_arith)
        requires
            p >= 0,
            bps <= d,
    ;
    let y = p * bps;
    let q = y / 10000;
    vstd::arithmetic::div_mod::lemma_fundamental_div_mod(y, 10000);
    let r = y % 10000;
    assert(0 <= r < 10000);
    assert(y == 10000 * q + r);
    assert(10000 * (p - q) == d * p + r);
    assert(p <= x) by (nonlinear_arith)
        requires
            x == d * p + m,
            m >= 0,
            p >= 0,
            d >= 1,
    ;
}

/// Round trip of the minimum price: for a royalty within the ceiling and a
/// net amount whose gross price can be computed, the gross price less the
/// royalty on it is exactly the net amount.
pub proof fn minimum_price_round_trip(desired_net: int, royalty_bps: int)
    requires
        0 <= royalty_bps <= MAX_ROYALTY_BPS,
        fits_i128(desired_net * 10000),
    ensures
        fits_i128(gross_price(desired_net, royalty_bps)),
        gross_price(desired_net, royalty_bps) - percentage_of(
            gross_price(desired_net, royalty_bps),
            royalty_bps,
        ) == desired_net,
{
    let price = gross_price(desired_net, royalty_bps);
    if desired_net >= 0 {
        lemma_round_trip_nonnegative(desired_net, royalty_bps);
        assert(percentage_of(price, royalty_bps) == (price * royalty_bps) / 10000);
    } else {
        let net = -desired_net;
        lemma_round_trip_nonnegative(net, royalty_bps);
        let p = (net * 10000) / (10000 - royalty_bps);
        assert(-(desired_net * 10000) == net * 10000) by (nonlinear_arith)
            requires
                net == -desired_net,
        ;
        assert(price == -p);
        assert(price * royalty_bps == -(p * royalty_bps)) by (nonlinear_arith)
            requires
                price == -p,
        ;
        if p * royalty_bps == 0 {
            assert(percentage_of(price, royalty_bps) == 0);
        } else {
            assert(percentage_of(price, royalty_bps) == -((p * royalty_bps) / 10000));
        }
    }
}

/// The sum of the first `n` amounts of the entries.
pub open spec fn sum_of(entries: Seq<(Address, i128)>, n: int) -> int
    decreases n,
{
    if n <= 0 {
        0
    } else {
        sum_of(entries, n - 1) + entries[n - 1].1
    }
}

/// Whether the running sum of the amounts stays in the range of `i128` all
/// the way.
pub open spec fn sums_fit(entries: Seq<(Address, i128)>) -> bool {
    forall|k: int| 0 <= k <= entries.len() ==> fits_i128(#[trigger] sum_of(entries, k))
}

/// Whether the amounts of a distribution can be added up: the map can be
/// read and its running sum stays in the range of `i128`.
pub open spec fn summable(distribution: RoyaltyDistribution) -> bool {
    map_entries(distribution.amounts) is Some && sums_fit(map_entries(distribution.amounts)->0)
}

/// The sum of the amounts of a distribution.
pub open spec fn total_of(distribution: RoyaltyDistribution) -> int {
    sum_of(
        map_entries(distribution.amounts)->0,
        map_entries(distribution.amounts)->0.len() as int,
    )
}

/// Whether the amounts of a distribution add up to its total: they can be
/// added up, and their sum is the total amount.
pub open spec fn balanced(distribution: RoyaltyDistribution) -> bool {
    summable(distribution) && total_of(distribution) == distribution.total_amount
}

/// The sum of those of the first `n` amounts whose payout went through.
pub open spec fn paid_sum(entries: Seq<(Address, i128)>, outcomes: Seq<bool>, n: int) -> int
    decreases n,
{
    if n <= 0 {
        0
    } else {
        paid_sum(entries, outcomes, n - 1) + if outcomes[n - 1] {
            entries[n - 1].1 as int
        } else {
            0
        }
    }
}

/// Whether the running sum of what was paid stays in the range of `i128`.
pub open spec fn paid_sums_fit(entries: Seq<(Address, i128)>, outcomes: Seq<bool>) -> bool {
    forall|k: int|
        0 <= k <= entries.len() ==> fits_i128(#[trigger] paid_sum(entries, outcomes, k))
}

/// Whether every payout went through.
pub open spec fn all_paid(outcomes: Seq<bool>) -> bool {
    forall|i: int| 0 <= i < outcomes.len() ==> outcomes[i]
}

/// The amount that the entries give to `who`, zero where they do not name it.
pub open spec fn amount_or_zero(entries: Seq<(Address, i128)>, who: Address) -> i128 {
    match amount_for(entries, who) {
        Some(a) => a,
        None => 0,
    }
}

/// The payouts of a distribution as transfers out of `custody`, one for each
/// recipient, in the order of the map.
pub open spec fn payouts(
    entries: Seq<(Address, i128)>,
    payment_asset: Asset,
    custody: Address,
) -> Seq<AssetTransfer> {
    Seq::new(
        entries.len(),
        |i: int|
            AssetTransfer::Tokens {
                contract: payment_asset.contract,
                from: custody,
                to: entries[i].0,
                amount: entries[i].1,
            },
    )
}

/// What a distribution of royalties comes to, `outcomes` telling for each
/// recipient in the order of the map whether the payout went through.
///
/// It fails with `InvalidAmount` where the map cannot be read, where there
/// is not one outcome for each recipient, and where the running sum of what
/// was paid leaves the range of `i128`. A payout that failed does not make
/// the distribution fail: it is left out of the sum and clears the flag.
pub open spec fn distribution_outcome(
    transaction_id: u64,
    distribution: RoyaltyDistribution,
    now: u64,
    outcomes: Seq<bool>,
) -> Result<DistributionResult, SettlementError> {
    match map_entries(distribution.amounts) {
        None => Err(SettlementError::InvalidAmount),
        Some(entries) => if outcomes.len() != entries.len() || !paid_sums_fit(entries, outcomes) {
            Err(SettlementError::InvalidAmount)
        } else {
            Ok(
                DistributionResult {
                    transaction_id,
                    total_amount: distribution.total_amount,
                    creator_amount: amount_or_zero(entries, distribution.creator_address),
                    seller_amount: percentage_of(
                        distribution.total_amount as int,
                        distribution.seller_percentage as int,
                    ) as i128,
                    platform_amount: percentage_of(
                        distribution.total_amount as int,
                        distribution.platform_percentage as int,
                    ) as i128,
                    distributed_amount: paid_sum(entries, outcomes, entries.len() as int) as i128,
                    distribution_success: all_paid(outcomes),
                    timestamp: now,
                },
            )
        },
    }
}

/// Whether `distribution` is the split of `sale_price` for the token whose
/// record is `info`: the shares, the price, and one payout, the royalty to
/// the creator.
pub open spec fn is_split_for(
    distribution: RoyaltyDistribution,
    info: RoyaltyInfo,
    sale_price: i128,
) -> bool {
    &&& distribution.creator_address == info.creator
    &&& distribution.creator_percentage == info.royalty_percentage
    &&& distribution.seller_percentage == SELLER_SHARE_BPS
    &&& distribution.platform_percentage == PLATFORM_SHARE_BPS
    &&& distribution.total_amount == sale_price
    &&& map_entries(distribution.amounts) == Some(
        seq![
            (
                info.creator,
                percentage_of(sale_price as int, info.royalty_percentage as int) as i128,
            ),
        ],
    )
}

/// A map that gives one amount to one recipient and nothing else has that
/// one entry.
proof fn lemma_single_entry(after: Seq<(Address, i128)>, recipient: Address, amount: i128)
    requires
        entries_after_put(Seq::empty(), after, recipient, amount),
    ensures
        after == seq![(recipient, amount)],
{
    assert(amount_for(after, recipient) == Some(amount));
    assert(has_recipient(after, recipient));
    let i = choose|i: int| 0 <= i < after.len() && #[trigger] after[i].0 == recipient;
    assert(after[i].1 == amount);
    if after.len() > 1 {
        let j = if i == 0 {
            1int
        } else {
            0int
        };
        let who = after[j].0;
        if who != recipient {
            assert(has_recipient(after, who));
            assert(amount_for(after, who) == amount_for(Seq::<(Address, i128)>::empty(), who));
            assert(!has_recipient(Seq::<(Address, i128)>::empty(), who));
        } else if j < i {
            assert(after[j].0 != after[i].0);
        } else {
            assert(after[i].0 != after[j].0);
        }
    }
    assert(after.len() == 1);
    assert(after =~= seq![(recipient, amount)]);
}

impl RoyaltyDistributor {
    /// The split of a sale price for a token: the royalty of its record for
    /// the creator, and the fixed shares of seller and platform. Fails with
    /// `NotFound` where the token has no royalty record.
    pub fn calculate_royalties(&self, nft_contract: &Address, token_id: u64, sale_price: i128) -> (r:
        Result<RoyaltyDistribution, SettlementError>)
        ensures
            !has_royalty(self@, *nft_contract, token_id) ==> r is Err && r->Err_0
                == SettlementError::NotFound,
            has_royalty(self@, *nft_contract, token_id) ==> r is Ok && is_split_for(
                r->Ok_0,
                royalty_of(self@, *nft_contract, token_id),
                sale_price,
            ),
    {
        let info = match self.get_royalty_info(nft_contract, token_id) {
            Ok(info) => info,
            Err(e) => {
                return Err(e);
            },
        };
        let royalty_amount: i128 = calculate_percentage(sale_price, info.royalty_percentage);
        let mut amounts = empty_amounts(&info.creator);
        put_amount(&mut amounts, info.creator.clone(), royalty_amount);
        proof {
            lemma_single_entry(map_entries(amounts)->0, info.creator, royalty_amount);
        }
        Ok(
            RoyaltyDistribution {
                creator_address: info.creator,
                creator_percentage: info.royalty_percentage,
                seller_percentage: SELLER_SHARE_BPS,
                platform_percentage: PLATFORM_SHARE_BPS,
                total_amount: sale_price,
                amounts,
            },
        )
    }

    /// Checks that the amounts of a distribution add up to its total.
    /// Fails with `InvalidAmount` where they do not.
    pub fn validate_royalty_distribution(distribution: &RoyaltyDistribution) -> (r: Result<
        (),
        SettlementError,
    >)
        ensures
            balanced(*distribution) ==> r == Ok::<(), SettlementError>(()),
            !balanced(*distribution) ==> r == Err::<(), SettlementError>(
                SettlementError::InvalidAmount,
            ),
    {
        match Self::distribution_total(distribution) {
            Ok(total) => {
                if total != distribution.total_amount {
                    Err(SettlementError::InvalidAmount)
                } else {
                    Ok(())
                }
            },
            Err(e) => Err(e),
        }
    }

    /// The payouts of a distribution as transfers out of `custody`, or
    /// `InvalidAmount` where the map cannot be read.
    pub fn payout_transfers(
        distribution: &RoyaltyDistribution,
        payment_asset: &Asset,
        custody: &Address,
    ) -> (r: Result<Vec<AssetTransfer>, SettlementError>)
        ensures
            map_entries(distribution.amounts) is None ==> r is Err && r->Err_0
                == SettlementError::InvalidAmount,
            map_entries(distribution.amounts) is Some ==> r is Ok && r->Ok_0@ == payouts(
                map_entries(distribution.amounts)->0,
                *payment_asset,
                *custody,
            ),
    {
        let entries = match read_amounts(&distribution.amounts) {
            Some(entries) => entries,
            None => {
                return Err(SettlementError::InvalidAmount);
            },
        };
        let ghost wanted = payouts(entries@, *payment_asset, *custody);
        let mut out: Vec<AssetTransfer> = Vec::new();
        let mut i: usize = 0;
        while i < entries.len()
            invariant
                i <= entries.len(),
                wanted == payouts(entries@, *payment_asset, *custody),
                out@ == wanted.take(i as int),
            decreases entries.len() - i,
        {
            out.push(
                AssetTransfer::Tokens {
                    contract: payment_asset.contract.clone(),
                    from: custody.clone(),
                    to: entries[i].0.clone(),
                    amount: entries[i].1,
                },
            );
            assert(out@ =~= wanted.take(i + 1));
            i += 1;
        }
        assert(wanted.take(entries.len() as int) =~= wanted);
        Ok(out)
    }

    /// Books a distribution of royalties at `now`, `outcomes` telling for
    /// each recipient in the order of the map whether the payout went
    /// through. See `distribution_outcome`.
    pub fn distribute_royalties(
        transaction_id: u64,
        distribution: &RoyaltyDistribution,
        payment_asset: &Asset,
        now: u64,
        outcomes: &Vec<bool>,
    ) -> (r: Result<DistributionResult, SettlementError>)
        ensures
            r == distribution_outcome(transaction_id, *distribution, now, outcomes@),
    {
        let entries = match read_amounts(&distribution.amounts) {
            Some(entries) => entries,
            None => {
                return Err(SettlementError::InvalidAmount);
            },
        };
        if outcomes.len() != entries.len() {
            return Err(SettlementError::InvalidAmount);
        }
        let mut total_distributed: i128 = 0;
        let mut distribution_success = true;
        let mut i: usize = 0;
        while i < entries.len()
            invariant
                i <= entries.len(),
                outcomes@.len() == entries@.len(),
                map_entries(distribution.amounts) == Some(entries@),
                total_distributed == paid_sum(entries@, outcomes@, i as int),
                forall|k: int|
                    0 <= k <= i ==> fits_i128(#[trigger] paid_sum(entries@, outcomes@, k)),
                distribution_success == (forall|j: int| 0 <= j < i ==> outcomes@[j]),
            decreases entries.len() - i,
        {
            if outcomes[i] {
                total_distributed = match safe_add(total_distributed, entries[i].1) {
                    Ok(t) => t,
                    Err(e) => {
                        assert(paid_sum(entries@, outcomes@, i + 1) == paid_sum(
                            entries@,
                            outcomes@,
                            i as int,
                        ) + entries@[i as int].1);
                        assert(!fits_i128(paid_sum(entries@, outcomes@, i + 1)));
                        assert(!paid_sums_fit(entries@, outcomes@));
                        return Err(e);
                    },
                };
            } else {
                distribution_success = false;
            }
            i += 1;
        }
        let creator_amount: i128 = match get_amount(
            &distribution.amounts,
            &distribution.creator_address,
        ) {
            Some(a) => a,
            None => 0,
        };
        Ok(
            DistributionResult {
                transaction_id,
                total_amount: distribution.total_amount,
                creator_amount,
                seller_amount: calculate_percentage(
                    distribution.total_amount,
                    distribution.seller_percentage,
                ),
                platform_amount: calculate_percentage(
                    distribution.total_amount,
                    distribution.platform_percentage,
                ),
                distributed_amount: total_distributed,
                distribution_success,
                timestamp: now,
            },
        )
    }

    /// The record of a distribution for the host to publish.
    pub fn distribution_event(distribution: &RoyaltyDistribution, result: &DistributionResult) -> (r:
        RoyaltiesDistributedEvent)
        ensures
            r == (RoyaltiesDistributedEvent {
                transaction_id: result.transaction_id,
                nft_address: distribution.creator_address,
                token_id: 0,
                creator: distribution.creator_address,
                creator_amount: result.creator_amount,
                seller_amount: result.seller_amount,
                platform_amount: result.platform_amount,
                total_amount: result.total_amount,
                timestamp: result.timestamp,
            }),
    {
        RoyaltiesDistributedEvent {
            transaction_id: result.transaction_id,
            nft_address: distribution.creator_address.clone(),
            token_id: 0,
            creator: distribution.creator_address.clone(),
            creator_amount: result.creator_amount,
            seller_amount: result.seller_amount,
            platform_amount: result.platform_amount,
            total_amount: result.total_amount,
            timestamp: result.timestamp,
        }
    }
}


/// What the royalties of a bundle have come to: for each creator, and in all.
pub ghost struct RoyaltyTally {
    pub shares: Map<Address, i128>,
    pub total: i128,
}

/// The share of `who`, if it has one.
pub open spec fn share_of(shares: Map<Address, i128>, who: Address) -> Option<i128> {
    if shares.contains_key(who) {
        Some(shares[who])
    } else {
        None
    }
}

/// The share of `who`, zero where it has none.
pub open spec fn share_or_zero(shares: Map<Address, i128>, who: Address) -> i128 {
    if shares.contains_key(who) {
        shares[who]
    } else {
        0
    }
}

/// The price that falls to each of `count` tokens of a bundle: the price
/// divided by their number, rounded towards zero.
pub open spec fn unit_price(sale_price: i128, count: int) -> i128 {
    if count > 0 {
        quotient(sale_price as int, count) as i128
    } else {
        0
    }
}

/// The tally with the royalty of one more token: the token must have a
/// record, and neither the share of its creator nor the total may leave the
/// range of `i128`.
pub open spec fn tally_item(
    records: Seq<RoyaltyInfo>,
    tally: Result<RoyaltyTally, SettlementError>,
    nft_contract: Address,
    token_id: u64,
    price: i128,
) -> Result<RoyaltyTally, SettlementError> {
    match tally {
        Err(e) => Err(e),
        Ok(t) => if !has_royalty(records, nft_contract, token_id) {
            Err(SettlementError::NotFound)
        } else {
            let info = royalty_of(records, nft_contract, token_id);
            let amount = percentage_of(price as int, info.royalty_percentage as int);
            if !fits_i128(share_or_zero(t.shares, info.creator) + amount) || !fits_i128(
                t.total + amount,
            ) {
                Err(SettlementError::InvalidAmount)
            } else {
                Ok(
                    RoyaltyTally {
                        shares: t.shares.insert(
                            info.creator,
                            (share_or_zero(t.shares, info.creator) + amount) as i128,
                        ),
                        total: (t.total + amount) as i128,
                    },
                )
            }
        },
    }
}

/// The tally of the first `n` tokens, taken in order; the first token that
/// fails decides the error.
pub open spec fn tally_items(
    records: Seq<RoyaltyInfo>,
    nft_contracts: Seq<Address>,
    token_ids: Seq<u64>,
    price: i128,
    n: int,
) -> Result<RoyaltyTally, SettlementError>
    decreases n,
{
    if n <= 0 {
        Ok(RoyaltyTally { shares: Map::empty(), total: 0 })
    } else {
        tally_item(
            records,
            tally_items(records, nft_contracts, token_ids, price, n - 1),
            nft_contracts[n - 1],
            token_ids[n - 1],
            price,
        )
    }
}

/// The shares of a bundle once seller and platform have theirs: what the
/// royalties leave of the price, a twentieth of it for the platform and the
/// rest for the seller, each added to what the recipient has as a creator.
pub open spec fn bundle_shares(
    tally: RoyaltyTally,
    sale_price: i128,
    seller: Address,
    platform: Address,
) -> Result<Map<Address, i128>, SettlementError> {
    let remainder = sale_price - tally.total;
    let platform_amount = percentage_of(remainder, PLATFORM_SHARE_BPS as int);
    let seller_amount = remainder - platform_amount;
    if !fits_i128(remainder) || !fits_i128(seller_amount) || !fits_i128(
        share_or_zero(tally.shares, seller) + seller_amount,
    ) {
        Err(SettlementError::InvalidAmount)
    } else {
        let with_seller = tally.shares.insert(
            seller,
            (share_or_zero(tally.shares, seller) + seller_amount) as i128,
        );
        if !fits_i128(share_or_zero(with_seller, platform) + platform_amount) {
            Err(SettlementError::InvalidAmount)
        } else {
            Ok(
                with_seller.insert(
                    platform,
                    (share_or_zero(with_seller, platform) + platform_amount) as i128,
                ),
            )
        }
    }
}

/// What the split of a bundle price comes to: `InvalidAmount` where the two
/// lists differ in length, the error of the first token that fails,
/// `InvalidAmount` where an amount leaves the range of `i128`, or the share
/// of every recipient.
pub open spec fn complex_outcome(
    records: Seq<RoyaltyInfo>,
    nft_contracts: Seq<Address>,
    token_ids: Seq<u64>,
    sale_price: i128,
    seller: Address,
    platform: Address,
) -> Result<Map<Address, i128>, SettlementError> {
    if nft_contracts.len() != token_ids.len() {
        Err(SettlementError::InvalidAmount)
    } else {
        match tally_items(
            records,
            nft_contracts,
            token_ids,
            unit_price(sale_price, nft_contracts.len() as int),
            nft_contracts.len() as int,
        ) {
            Err(e) => Err(e),
            Ok(t) => bundle_shares(t, sale_price, seller, platform),
        }
    }
}

/// Whether the entries give every recipient its share and name nobody else.
pub open spec fn entries_hold(entries: Seq<(Address, i128)>, shares: Map<Address, i128>) -> bool {
    forall|who: Address| #[trigger] amount_for(entries, who) == share_of(shares, who)
}

/// Whether `result` is what `outcome` asks for: the same error, or a
/// distribution of `sale_price` whose map holds the shares, with the fixed
/// shares of seller and platform and no share of a single creator.
pub open spec fn is_complex_result(
    result: Result<RoyaltyDistribution, SettlementError>,
    outcome: Result<Map<Address, i128>, SettlementError>,
    sale_price: i128,
    creator_of_record: Address,
) -> bool {
    match outcome {
        Err(e) => result is Err && result->Err_0 == e,
        Ok(shares) => {
            &&& result is Ok
            &&& result->Ok_0.creator_address == creator_of_record
            &&& result->Ok_0.creator_percentage == 0
            &&& result->Ok_0.seller_percentage == SELLER_SHARE_BPS
            &&& result->Ok_0.platform_percentage == PLATFORM_SHARE_BPS
            &&& result->Ok_0.total_amount == sale_price
            &&& map_entries(result->Ok_0.amounts) is Some
            &&& distinct_recipients(map_entries(result->Ok_0.amounts)->0)
            &&& entries_hold(map_entries(result->Ok_0.amounts)->0, shares)
        },
    }
}

/// An error in the tally of some tokens is the error of the tally of more.
proof fn lemma_tally_error_sticks(
    records: Seq<RoyaltyInfo>,
    nft_contracts: Seq<Address>,
    token_ids: Seq<u64>,
    price: i128,
    k: int,
    n: int,
)
    requires
        0 <= k <= n,
        tally_items(records, nft_contracts, token_ids, price, k) is Err,
    ensures
        tally_items(records, nft_contracts, token_ids, price, n) == tally_items(
            records,
            nft_contracts,
            token_ids,
            price,
            k,
        ),
    decreases n - k,
{
    if k < n {
        lemma_tally_error_sticks(records, nft_contracts, token_ids, price, k, n - 1);
    }
}

/// Adds `amount` to what the map gives to `who`, or fails with
/// `InvalidAmount` and leaves the map where the sum leaves the range of
/// `i128`.
fn credit(amounts: &mut Amounts, who: &Address, amount: i128) -> (r: Result<(), SettlementError>)
    requires
        map_entries(*old(amounts)) is Some,
    ensures
        map_entries(*final(amounts)) is Some,
        fits_i128(amount_or_zero(map_entries(*old(amounts))->0, *who) + amount) ==> r is Ok
            && entries_after_put(
            map_entries(*old(amounts))->0,
            map_entries(*final(amounts))->0,
            *who,
            (amount_or_zero(map_entries(*old(amounts))->0, *who) + amount) as i128,
        ),
        !fits_i128(amount_or_zero(map_entries(*old(amounts))->0, *who) + amount) ==> r == Err::<
            (),
            SettlementError,
        >(SettlementError::InvalidAmount) && *final(amounts) == *old(amounts),
{
    let current: i128 = match get_amount(amounts, who) {
        Some(a) => a,
        None => 0,
    };
    let sum: i128 = match safe_add(current, amount) {
        Ok(s) => s,
        Err(e) => {
            return Err(e);
        },
    };
    put_amount(amounts, who.clone(), sum);
    Ok(())
}

/// Entries that hold some shares hold, after a put, the shares with that
/// recipient's share replaced.
proof fn lemma_put_holds(
    before: Seq<(Address, i128)>,
    after: Seq<(Address, i128)>,
    shares: Map<Address, i128>,
    who: Address,
    amount: i128,
)
    requires
        entries_hold(before, shares),
        entries_after_put(before, after, who, amount),
    ensures
        entries_hold(after, shares.insert(who, amount)),
        amount_or_zero(before, who) == share_or_zero(shares, who),
{
    assert(amount_for(before, who) == share_of(shares, who));
    assert forall|w: Address| #[trigger]
        amount_for(after, w) == share_of(shares.insert(who, amount), w) by {
        assert(amount_for(before, w) == share_of(shares, w));
    }
}

/// A copy of a list of royalty records.
pub fn clone_records(records: &Vec<RoyaltyInfo>) -> (r: Vec<RoyaltyInfo>)
    ensures
        r@ == records@,
{
    let mut out: Vec<RoyaltyInfo> = Vec::new();
    let mut i: usize = 0;
    while i < records.len()
        invariant
            i <= records.len(),
            out@ == records@.take(i as int),
        decreases records.len() - i,
    {
        out.push(records[i].clone());
        assert(records@.take(i as int).push(records@[i as int]) =~= records@.take(i + 1));
        i += 1;
    }
    assert(records@.take(records.len() as int) =~= records@);
    out
}

/// The records after the royalty of the first `n` tokens of the list was
/// set one after the other; the first token that fails decides the error.
pub open spec fn bulk_set(
    records: Seq<RoyaltyInfo>,
    nft_contract: Address,
    token_ids: Seq<u64>,
    creator: Address,
    royalty_percentage: u64,
    setter: Address,
    now: u64,
    n: int,
) -> Result<Seq<RoyaltyInfo>, SettlementError>
    decreases n,
{
    if n <= 0 {
        Ok(records)
    } else {
        match bulk_set(
            records,
            nft_contract,
            token_ids,
            creator,
            royalty_percentage,
            setter,
            now,
            n - 1,
        ) {
            Err(e) => Err(e),
            Ok(so_far) => match set_outcome(
                so_far,
                nft_contract,
                token_ids[n - 1],
                royalty_percentage,
                setter,
            ) {
                Err(e) => Err(e),
                Ok(_) => Ok(
                    with_record(
                        so_far,
                        RoyaltyInfo {
                            nft_contract,
                            token_id: token_ids[n - 1],
                            creator,
                            royalty_percentage,
                            last_updated: now,
                        },
                    ),
                ),
            },
        }
    }
}

/// An error in setting some tokens is the error of setting more.
proof fn lemma_bulk_error_sticks(
    records: Seq<RoyaltyInfo>,
    nft_contract: Address,
    token_ids: Seq<u64>,
    creator: Address,
    royalty_percentage: u64,
    setter: Address,
    now: u64,
    k: int,
    n: int,
)
    requires
        0 <= k <= n,
        bulk_set(records, nft_contract, token_ids, creator, royalty_percentage, setter, now, k)
            is Err,
    ensures
        bulk_set(records, nft_contract, token_ids, creator, royalty_percentage, setter, now, n)
            == bulk_set(
            records,
            nft_contract,
            token_ids,
            creator,
            royalty_percentage,
            setter,
            now,
            k,
        ),
    decreases n - k,
{
    if k < n {
        lemma_bulk_error_sticks(
            records,
            nft_contract,
            token_ids,
            creator,
            royalty_percentage,
            setter,
            now,
            k,
            n - 1,
        );
    }
}

/// Whether the records moved as the outcome of a bulk set asks: to the new
/// records on success, not at all on failure.
pub open spec fn is_bulk_result(
    result: Result<(), SettlementError>,
    outcome: Result<Seq<RoyaltyInfo>, SettlementError>,
    before: Seq<RoyaltyInfo>,
    after: Seq<RoyaltyInfo>,
) -> bool {
    match outcome {
        Err(e) => result == Err::<(), SettlementError>(e) && after == before,
        Ok(records) => result is Ok && after == records,
    }
}

impl RoyaltyDistributor {
    /// Splits the price of a bundle: the price is divided evenly over the
    /// tokens, each token's royalty on its part goes to its creator, and of
    /// what the royalties leave a twentieth goes to `platform` and the rest
    /// to `seller`. A recipient who appears more than once is paid the sum.
    /// `creator_of_record` is entered as the creator of the distribution,
    /// which has no single one. See `complex_outcome` for the failures.
    ///
    /// For a price that is not negative and valid records the amounts of
    /// the result are not negative and add up to the price.
    pub fn calculate_complex_royalties(
        &self,
        nft_contracts: &Vec<Address>,
        token_ids: &Vec<u64>,
        sale_price: i128,
        seller: &Address,
        platform: &Address,
        creator_of_record: &Address,
    ) -> (r: Result<RoyaltyDistribution, SettlementError>)
        ensures
            is_complex_result(
                r,
                complex_outcome(
                    self@,
                    nft_contracts@,
                    token_ids@,
                    sale_price,
                    *seller,
                    *platform,
                ),
                sale_price,
                *creator_of_record,
            ),
            r is Ok && sale_price >= 0 && valid_records(self@) ==> balanced(r->Ok_0) && no_debts(
                map_entries(r->Ok_0.amounts)->0,
            ),
    {
        if nft_contracts.len() != token_ids.len() {
            return Err(SettlementError::InvalidAmount);
        }
        let ghost sound = sale_price >= 0 && valid_records(self@);
        let n: usize = nft_contracts.len();
        let price: i128 = if n > 0 {
            proof {
                lemma_quotient_bounded(sale_price as int, n as int);
            }
            match safe_div(sale_price, n as i128) {
                Ok(p) => p,
                Err(_) => 0,
            }
        } else {
            0
        };
        assert(price == unit_price(sale_price, n as int));
        proof {
            if sound {
                lemma_unit_price_bounded(sale_price as int, n as int);
            }
        }
        let mut total: i128 = 0;
        let mut amounts = empty_amounts(seller);
        let ghost mut shares: Map<Address, i128> = Map::empty();
        assert(entries_hold(map_entries(amounts)->0, shares)) by {
            assert forall|who: Address| #[trigger]
                amount_for(map_entries(amounts)->0, who) == share_of(shares, who) by {
                assert(!has_recipient(Seq::<(Address, i128)>::empty(), who));
            }
        }
        let mut i: usize = 0;
        while i < n
            invariant
                i <= n,
                n == nft_contracts@.len(),
                n == token_ids@.len(),
                price == unit_price(sale_price, n as int),
                map_entries(amounts) is Some,
                entries_hold(map_entries(amounts)->0, shares),
                distinct_recipients(map_entries(amounts)->0),
                sound == (sale_price >= 0 && valid_records(self@)),
                sound ==> price >= 0 && n * price <= sale_price,
                sound ==> no_debts(map_entries(amounts)->0),
                sound ==> sum_of(
                    map_entries(amounts)->0,
                    map_entries(amounts)->0.len() as int,
                ) == total,
                sound ==> 0 <= 2 * total <= i * price,
                tally_items(self@, nft_contracts@, token_ids@, price, i as int) == Ok::<
                    RoyaltyTally,
                    SettlementError,
                >(RoyaltyTally { shares, total }),
            decreases n - i,
        {
            let info = match self.get_royalty_info(&nft_contracts[i], token_ids[i]) {
                Ok(info) => info,
                Err(e) => {
                    proof {
                        lemma_tally_error_sticks(
                            self@,
                            nft_contracts@,
                            token_ids@,
                            price,
                            i + 1,
                            n as int,
                        );
                    }
                    return Err(e);
                },
            };
            let royalty_amount: i128 = calculate_percentage(price, info.royalty_percentage);
            let ghost before = map_entries(amounts)->0;
            proof {
                assert(amount_for(before, info.creator) == share_of(shares, info.creator));
            }
            match credit(&mut amounts, &info.creator, royalty_amount) {
                Ok(_) => {},
                Err(e) => {
                    proof {
                        lemma_tally_error_sticks(
                            self@,
                            nft_contracts@,
                            token_ids@,
                            price,
                            i + 1,
                            n as int,
                        );
                    }
                    return Err(e);
                },
            }
            let new_total: i128 = match safe_add(total, royalty_amount) {
                Ok(t) => t,
                Err(e) => {
                    proof {
                        lemma_tally_error_sticks(
                            self@,
                            nft_contracts@,
                            token_ids@,
                            price,
                            i + 1,
                            n as int,
                        );
                    }
                    return Err(e);
                },
            };
            proof {
                let credited = (share_or_zero(shares, info.creator) + royalty_amount) as i128;
                lemma_put_holds(before, map_entries(amounts)->0, shares, info.creator, credited);
                if sound {
                    royalty_index_is_first(self@, nft_contracts@[i as int], token_ids@[i as int]);
                    lemma_share_bounded(price as int, info.royalty_percentage as int);
                    lemma_amount_or_zero_no_debt(before, info.creator);
                    lemma_put_sum(before, map_entries(amounts)->0, info.creator, credited);
                    lemma_put_no_debts(before, map_entries(amounts)->0, info.creator, credited);
                    assert((i + 1) * price == i * price + price) by (nonlinear_arith);
                }
                shares = shares.insert(info.creator, credited);
            }
            total = new_total;
            i += 1;
        }
        let remainder: i128 = match safe_sub(sale_price, total) {
            Ok(v) => v,
            Err(e) => {
                return Err(e);
            },
        };
        let platform_amount: i128 = calculate_percentage(remainder, PLATFORM_SHARE_BPS);
        let seller_amount: i128 = match safe_sub(remainder, platform_amount) {
            Ok(v) => v,
            Err(e) => {
                return Err(e);
            },
        };
        let ghost before_seller = map_entries(amounts)->0;
        proof {
            assert(amount_for(before_seller, *seller) == share_of(shares, *seller));
            if sound {
                lemma_share_bounded(remainder as int, PLATFORM_SHARE_BPS as int);
            }
        }
        match credit(&mut amounts, seller, seller_amount) {
            Ok(_) => {},
            Err(e) => {
                return Err(e);
            },
        }
        let ghost with_seller = shares.insert(
            *seller,
            (share_or_zero(shares, *seller) + seller_amount) as i128,
        );
        let ghost before_platform = map_entries(amounts)->0;
        proof {
            lemma_put_holds(
                before_seller,
                before_platform,
                shares,
                *seller,
                (share_or_zero(shares, *seller) + seller_amount) as i128,
            );
            assert(amount_for(before_platform, *platform) == share_of(with_seller, *platform));
            if sound {
                let credited = (amount_or_zero(before_seller, *seller) + seller_amount) as i128;
                lemma_amount_or_zero_no_debt(before_seller, *seller);
                lemma_put_sum(before_seller, before_platform, *seller, credited);
                lemma_put_no_debts(before_seller, before_platform, *seller, credited);
            }
        }
        match credit(&mut amounts, platform, platform_amount) {
            Ok(_) => {},
            Err(e) => {
                return Err(e);
            },
        }
        proof {
            lemma_put_holds(
                before_platform,
                map_entries(amounts)->0,
                with_seller,
                *platform,
                (share_or_zero(with_seller, *platform) + platform_amount) as i128,
            );
            if sound {
                let after = map_entries(amounts)->0;
                let credited = (amount_or_zero(before_platform, *platform) + platform_amount) as i128;
                lemma_amount_or_zero_no_debt(before_platform, *platform);
                lemma_put_sum(before_platform, after, *platform, credited);
                lemma_put_no_debts(before_platform, after, *platform, credited);
                assert(sum_of(after, after.len() as int) == sale_price);
                assert forall|k: int| 0 <= k <= after.len() implies fits_i128(
                    #[trigger] sum_of(after, k),
                ) by {
                    lemma_running_sum_bounded(after, k);
                }
            }
        }
        Ok(
            RoyaltyDistribution {
                creator_address: creator_of_record.clone(),
                creator_percentage: 0,
                seller_percentage: SELLER_SHARE_BPS,
                platform_percentage: PLATFORM_SHARE_BPS,
                total_amount: sale_price,
                amounts,
            },
        )
    }

    /// Records the same royalty for several tokens of one collection at
    /// `now`, one after the other as `set_royalty_info` does. Where one of
    /// them fails, its error is returned and no record is changed.
    pub fn bulk_set_royalties(
        &mut self,
        nft_contract: &Address,
        token_ids: &Vec<u64>,
        creator: &Address,
        royalty_percentage: u64,
        setter: &Address,
        now: u64,
    ) -> (r: Result<(), SettlementError>)
        requires
            valid_records(old(self)@),
        ensures
            valid_records(final(self)@),
            is_bulk_result(
                r,
                bulk_set(
                    old(self)@,
                    *nft_contract,
                    token_ids@,
                    *creator,
                    royalty_percentage,
                    *setter,
                    now,
                    token_ids@.len() as int,
                ),
                old(self)@,
                final(self)@,
            ),
    {
        let mut work = RoyaltyDistributor { records: clone_records(&self.records) };
        let mut i: usize = 0;
        while i < token_ids.len()
            invariant
                i <= token_ids.len(),
                valid_records(work@),
                valid_records(self@),
                self@ == old(self)@,
                bulk_set(
                    self@,
                    *nft_contract,
                    token_ids@,
                    *creator,
                    royalty_percentage,
                    *setter,
                    now,
                    i as int,
                ) == Ok::<Seq<RoyaltyInfo>, SettlementError>(work@),
            decreases token_ids.len() - i,
        {
            match work.set_royalty_info(
                nft_contract,
                token_ids[i],
                creator,
                royalty_percentage,
                setter,
                now,
            ) {
                Ok(_) => {},
                Err(e) => {
                    proof {
                        lemma_bulk_error_sticks(
                            self@,
                            *nft_contract,
                            token_ids@,
                            *creator,
                            royalty_percentage,
                            *setter,
                            now,
                            i + 1,
                            token_ids@.len() as int,
                        );
                    }
                    return Err(e);
                },
            }
            i += 1;
        }
        self.records = work.records;
        Ok(())
    }
}


/// Whether the record at `i` is for another token than every record before
/// it.
fn is_new_record(records: &Vec<RoyaltyInfo>, i: usize) -> (r: bool)
    requires
        i < records@.len(),
    ensures
        r == (forall|j: int|
            0 <= j < i ==> !is_record_of(
                #[trigger] records@[j],
                records@[i as int].nft_contract,
                records@[i as int].token_id,
            )),
{
    let mut j: usize = 0;
    while j < i
        invariant
            j <= i,
            i < records@.len(),
            forall|k: int|
                0 <= k < j ==> !is_record_of(
                    #[trigger] records@[k],
                    records@[i as int].nft_contract,
                    records@[i as int].token_id,
                ),
        decreases i - j,
    {
        if records[j].token_id == records[i].token_id && same_address(
            &records[j].nft_contract,
            &records[i].nft_contract,
        ) {
            return false;
        }
        j += 1;
    }
    true
}

impl RoyaltyDistributor {
    /// The distributor with the given records, as they were read from the
    /// ledger, or nothing where they are not valid.
    pub fn restore(records: Vec<RoyaltyInfo>) -> (r: Option<Self>)
        ensures
            r is Some <==> valid_records(records@),
            r is Some ==> r->0@ == records@,
    {
        let mut i: usize = 0;
        while i < records.len()
            invariant
                i <= records.len(),
                forall|k: int|
                    0 <= k < i ==> (#[trigger] records@[k]).royalty_percentage <= MAX_ROYALTY_BPS,
                forall|a: int, b: int|
                    0 <= a < b < i ==> !is_record_of(
                        #[trigger] records@[a],
                        (#[trigger] records@[b]).nft_contract,
                        records@[b].token_id,
                    ),
            decreases records.len() - i,
        {
            if records[i].royalty_percentage > MAX_ROYALTY_BPS {
                return None;
            }
            if !is_new_record(&records, i) {
                return None;
            }
            i += 1;
        }
        Some(RoyaltyDistributor { records })
    }
}


/// What became of the payout to one recipient.
#[derive(Debug)]
pub struct PayoutLeg {
    pub recipient: Address,
    pub amount: i128,
    /// Whether the transfer went through.
    pub paid: bool,
}

/// The report of a distribution: for each recipient in the order of the
/// map, the amount and whether it was paid.
pub open spec fn payout_legs(entries: Seq<(Address, i128)>, outcomes: Seq<bool>) -> Seq<PayoutLeg> {
    Seq::new(
        entries.len(),
        |i: int| PayoutLeg { recipient: entries[i].0, amount: entries[i].1, paid: outcomes[i] },
    )
}

impl RoyaltyDistributor {
    /// For each recipient of a distribution whether its payout went
    /// through, so that the payouts that failed can be made again one by
    /// one. Fails with `InvalidAmount` where the map cannot be read or there
    /// is not one outcome for each recipient.
    pub fn payout_report(distribution: &RoyaltyDistribution, outcomes: &Vec<bool>) -> (r: Result<
        Vec<PayoutLeg>,
        SettlementError,
    >)
        ensures
            map_entries(distribution.amounts) is None || map_entries(distribution.amounts)->0.len()
                != outcomes@.len() ==> r is Err && r->Err_0 == SettlementError::InvalidAmount,
            map_entries(distribution.amounts) is Some && map_entries(distribution.amounts)->0.len()
                == outcomes@.len() ==> r is Ok && r->Ok_0@ == payout_legs(
                map_entries(distribution.amounts)->0,
                outcomes@,
            ),
    {
        let entries = match read_amounts(&distribution.amounts) {
            Some(entries) => entries,
            None => {
                return Err(SettlementError::InvalidAmount);
            },
        };
        if outcomes.len() != entries.len() {
            return Err(SettlementError::InvalidAmount);
        }
        let ghost wanted = payout_legs(entries@, outcomes@);
        let mut out: Vec<PayoutLeg> = Vec::new();
        let mut i: usize = 0;
        while i < entries.len()
            invariant
                i <= entries.len(),
                outcomes@.len() == entries@.len(),
                wanted == payout_legs(entries@, outcomes@),
                out@ == wanted.take(i as int),
            decreases entries.len() - i,
        {
            out.push(
                PayoutLeg {
                    recipient: entries[i].0.clone(),
                    amount: entries[i].1,
                    paid: outcomes[i],
                },
            );
            assert(out@ =~= wanted.take(i + 1));
            i += 1;
        }
        assert(wanted.take(entries.len() as int) =~= wanted);
        Ok(out)
    }
}


/// Whether `result` reports that the whole of `expected` was paid for the
/// transaction: it is the result of that transaction, of a distribution of
/// the same total, every payout went through, and what was paid is the sum
/// of the amounts.
pub open spec fn paid_in_full(
    transaction_id: u64,
    expected: RoyaltyDistribution,
    result: DistributionResult,
) -> bool {
    &&& result.transaction_id == transaction_id
    &&& result.total_amount == expected.total_amount
    &&& result.distribution_success
    &&& result.distributed_amount == total_of(expected)
}

impl RoyaltyDistributor {
    /// The sum of the amounts of a distribution, or `InvalidAmount` where
    /// they cannot be added up.
    pub fn distribution_total(distribution: &RoyaltyDistribution) -> (r: Result<
        i128,
        SettlementError,
    >)
        ensures
            summable(*distribution) ==> r == Ok::<i128, SettlementError>(
                total_of(*distribution) as i128,
            ) && fits_i128(total_of(*distribution)),
            !summable(*distribution) ==> r == Err::<i128, SettlementError>(
                SettlementError::InvalidAmount,
            ),
    {
        let entries = match read_amounts(&distribution.amounts) {
            Some(entries) => entries,
            None => {
                return Err(SettlementError::InvalidAmount);
            },
        };
        let mut total: i128 = 0;
        let mut i: usize = 0;
        while i < entries.len()
            invariant
                i <= entries.len(),
                map_entries(distribution.amounts) == Some(entries@),
                total == sum_of(entries@, i as int),
                forall|k: int| 0 <= k <= i ==> fits_i128(#[trigger] sum_of(entries@, k)),
            decreases entries.len() - i,
        {
            total = match safe_add(total, entries[i].1) {
                Ok(t) => t,
                Err(e) => {
                    assert(sum_of(entries@, i + 1) == sum_of(entries@, i as int)
                        + entries@[i as int].1);
                    assert(!sums_fit(entries@));
                    return Err(e);
                },
            };
            i += 1;
        }
        Ok(total)
    }
}

impl RoyaltyEnforcer {
    /// Whether the royalties of a transaction were paid as expected: see
    /// `paid_in_full`. Fails with `InvalidAmount` where the amounts of the
    /// expected distribution cannot be added up.
    pub fn verify_royalty_payment(
        transaction_id: u64,
        expected_distribution: &RoyaltyDistribution,
        result: &DistributionResult,
    ) -> (r: Result<bool, SettlementError>)
        ensures
            summable(*expected_distribution) ==> r == Ok::<bool, SettlementError>(
                paid_in_full(transaction_id, *expected_distribution, *result),
            ),
            !summable(*expected_distribution) ==> r == Err::<bool, SettlementError>(
                SettlementError::InvalidAmount,
            ),
    {
        let total: i128 = match RoyaltyDistributor::distribution_total(expected_distribution) {
            Ok(t) => t,
            Err(e) => {
                return Err(e);
            },
        };
        Ok(
            result.transaction_id == transaction_id && result.total_amount
                == expected_distribution.total_amount && result.distribution_success
                && result.distributed_amount == total,
        )
    }
}


/// The sum of the first `n` amounts depends on the first `n` entries only.
proof fn lemma_sum_prefix(a: Seq<(Address, i128)>, b: Seq<(Address, i128)>, n: int)
    requires
        0 <= n <= a.len(),
        n <= b.len(),
        forall|i: int| 0 <= i < n ==> a[i] == b[i],
    ensures
        sum_of(a, n) == sum_of(b, n),
    decreases n,
{
    if n > 0 {
        lemma_sum_prefix(a, b, n - 1);
    }
}

/// Taking an entry away takes its amount off the sum.
proof fn lemma_sum_remove(e: Seq<(Address, i128)>, j: int)
    requires
        0 <= j < e.len(),
    ensures
        sum_of(e, e.len() as int) == sum_of(e.remove(j), e.len() - 1) + e[j].1,
    decreases e.len(),
{
    let n = e.len() as int;
    let r = e.remove(j);
    if j == n - 1 {
        lemma_sum_prefix(e, r, n - 1);
    } else {
        let d = e.drop_last();
        lemma_sum_remove(d, j);
        lemma_sum_prefix(e, d, n - 1);
        lemma_sum_prefix(r, d.remove(j), n - 2);
        assert(r[n - 2] == e[n - 1]);
    }
}

/// Among entries of whom no recipient occurs twice, the amount for the
/// recipient of an entry is the amount of that entry.
proof fn lemma_amount_at(e: Seq<(Address, i128)>, i: int)
    requires
        distinct_recipients(e),
        0 <= i < e.len(),
    ensures
        has_recipient(e, e[i].0),
        amount_for(e, e[i].0) == Some(e[i].1),
{
    assert(e[i].0 == e[i].0);
    assert(has_recipient(e, e[i].0));
    let c = choose|k: int| 0 <= k < e.len() && #[trigger] e[k].0 == e[i].0;
    if c < i {
        assert(e[c].0 != e[i].0);
    } else if i < c {
        assert(e[i].0 != e[c].0);
    }
}

/// Taking an entry away leaves no entry for its recipient, and leaves every
/// other recipient its amount.
proof fn lemma_amount_remove(e: Seq<(Address, i128)>, j: int)
    requires
        distinct_recipients(e),
        0 <= j < e.len(),
    ensures
        distinct_recipients(e.remove(j)),
        !has_recipient(e.remove(j), e[j].0),
        forall|w: Address| w != e[j].0 ==> #[trigger] amount_for(e.remove(j), w) == amount_for(e, w),
{
    let r = e.remove(j);
    assert forall|a: int, b: int| 0 <= a < b < r.len() implies r[a].0 != r[b].0 by {
        let a0 = if a < j {
            a
        } else {
            a + 1
        };
        let b0 = if b < j {
            b
        } else {
            b + 1
        };
        assert(r[a] == e[a0]);
        assert(r[b] == e[b0]);
        assert(e[a0].0 != e[b0].0);
    }
    if has_recipient(r, e[j].0) {
        let i = choose|i: int| 0 <= i < r.len() && #[trigger] r[i].0 == e[j].0;
        let i0 = if i < j {
            i
        } else {
            i + 1
        };
        assert(r[i] == e[i0]);
        if i0 < j {
            assert(e[i0].0 != e[j].0);
        } else {
            assert(e[j].0 != e[i0].0);
        }
    }
    assert forall|w: Address| w != e[j].0 implies #[trigger] amount_for(r, w) == amount_for(
        e,
        w,
    ) by {
        if has_recipient(e, w) {
            let i = choose|i: int| 0 <= i < e.len() && #[trigger] e[i].0 == w;
            let i1 = if i < j {
                i
            } else {
                i - 1
            };
            assert(r[i1] == e[i]);
            lemma_amount_at(r, i1);
            lemma_amount_at(e, i);
        } else {
            if has_recipient(r, w) {
                let i = choose|i: int| 0 <= i < r.len() && #[trigger] r[i].0 == w;
                let i0 = if i < j {
                    i
                } else {
                    i + 1
                };
                assert(r[i] == e[i0]);
                assert(e[i0].0 == w);
            }
        }
    }
}

/// Entries that give every recipient the same amount have the same sum, in
/// whatever order they stand.
proof fn lemma_same_amounts_same_sum(a: Seq<(Address, i128)>, b: Seq<(Address, i128)>)
    requires
        distinct_recipients(a),
        distinct_recipients(b),
        forall|w: Address| #[trigger] amount_for(a, w) == amount_for(b, w),
    ensures
        a.len() == b.len(),
        sum_of(a, a.len() as int) == sum_of(b, b.len() as int),
    decreases a.len(),
{
    if a.len() == 0 {
        if b.len() > 0 {
            lemma_amount_at(b, 0);
            assert(amount_for(a, b[0].0) == amount_for(b, b[0].0));
            if has_recipient(a, b[0].0) {
                let i = choose|i: int| 0 <= i < a.len() && #[trigger] a[i].0 == b[0].0;
            }
        }
    } else {
        let n = a.len() - 1;
        let k = a[n].0;
        lemma_amount_at(a, n);
        assert(amount_for(a, k) == amount_for(b, k));
        assert(has_recipient(b, k));
        let j = choose|j: int| 0 <= j < b.len() && #[trigger] b[j].0 == k;
        lemma_amount_at(b, j);
        let a2 = a.remove(n);
        let b2 = b.remove(j);
        lemma_amount_remove(a, n);
        lemma_amount_remove(b, j);
        assert forall|w: Address| #[trigger] amount_for(a2, w) == amount_for(b2, w) by {
            if w != k {
                assert(amount_for(a, w) == amount_for(b, w));
            }
        }
        lemma_same_amounts_same_sum(a2, b2);
        lemma_sum_remove(a, n);
        lemma_sum_remove(b, j);
    }
}

/// A put changes the sum of the amounts by what it changes for the
/// recipient.
proof fn lemma_put_sum(
    before: Seq<(Address, i128)>,
    after: Seq<(Address, i128)>,
    who: Address,
    amount: i128,
)
    requires
        distinct_recipients(before),
        entries_after_put(before, after, who, amount),
    ensures
        sum_of(after, after.len() as int) == sum_of(before, before.len() as int) - amount_or_zero(
            before,
            who,
        ) + amount,
{
    assert(amount_for(after, who) == Some(amount));
    assert(has_recipient(after, who));
    let j = choose|j: int| 0 <= j < after.len() && #[trigger] after[j].0 == who;
    lemma_amount_at(after, j);
    lemma_amount_remove(after, j);
    lemma_sum_remove(after, j);
    let rest = after.remove(j);
    if has_recipient(before, who) {
        let i = choose|i: int| 0 <= i < before.len() && #[trigger] before[i].0 == who;
        lemma_amount_at(before, i);
        lemma_amount_remove(before, i);
        lemma_sum_remove(before, i);
        let others = before.remove(i);
        assert forall|w: Address| #[trigger] amount_for(others, w) == amount_for(rest, w) by {
            if w != who {
                assert(amount_for(after, w) == amount_for(before, w));
            }
        }
        lemma_same_amounts_same_sum(others, rest);
    } else {
        assert forall|w: Address| #[trigger] amount_for(before, w) == amount_for(rest, w) by {
            if w != who {
                assert(amount_for(after, w) == amount_for(before, w));
            }
        }
        lemma_same_amounts_same_sum(before, rest);
    }
}

/// Whether no amount of the entries is negative.
pub open spec fn no_debts(entries: Seq<(Address, i128)>) -> bool {
    forall|i: int| 0 <= i < entries.len() ==> (#[trigger] entries[i]).1 >= 0
}

/// Where no amount is negative, the running sum never exceeds the sum.
proof fn lemma_running_sum_bounded(e: Seq<(Address, i128)>, k: int)
    requires
        no_debts(e),
        0 <= k <= e.len(),
    ensures
        0 <= sum_of(e, k) <= sum_of(e, e.len() as int),
    decreases e.len() - k,
{
    lemma_sum_nonnegative(e, k);
    if k < e.len() {
        lemma_running_sum_bounded(e, k + 1);
        assert(e[k].1 >= 0);
    }
}

/// Where no amount is negative, no running sum is.
proof fn lemma_sum_nonnegative(e: Seq<(Address, i128)>, k: int)
    requires
        no_debts(e),
        0 <= k <= e.len(),
    ensures
        0 <= sum_of(e, k),
    decreases k,
{
    if k > 0 {
        lemma_sum_nonnegative(e, k - 1);
        assert(e[k - 1].1 >= 0);
    }
}

/// A put of an amount that is not negative among amounts that are not
/// negative leaves no negative amount.
proof fn lemma_put_no_debts(
    before: Seq<(Address, i128)>,
    after: Seq<(Address, i128)>,
    who: Address,
    amount: i128,
)
    requires
        no_debts(before),
        amount >= 0,
        entries_after_put(before, after, who, amount),
    ensures
        no_debts(after),
{
    assert forall|i: int| 0 <= i < after.len() implies (#[trigger] after[i]).1 >= 0 by {
        lemma_amount_at(after, i);
        let w = after[i].0;
        if w != who {
            assert(amount_for(after, w) == amount_for(before, w));
            assert(has_recipient(before, w));
            let k = choose|k: int| 0 <= k < before.len() && #[trigger] before[k].0 == w;
            assert(before[k].1 >= 0);
        } else {
            assert(amount_for(after, w) == Some(amount));
        }
    }
}


/// The share that at most half of the basis points make of an amount that
/// is not negative is not negative and at most half of the amount.
proof fn lemma_share_bounded(amount: int, bps: int)
    requires
        amount >= 0,
        0 <= bps <= 5000,
    ensures
        0 <= percentage_of(amount, bps),
        2 * percentage_of(amount, bps) <= amount,
{
    let product = amount * bps;
    assert(0 <= product <= amount * 5000) by (nonlinear_arith)
        requires
            product == amount * bps,
            amount >= 0,
            0 <= bps <= 5000,
    ;
    let held = crate::marketplace_settlement::math_utils::clamp_i128(product);
    assert(0 <= held <= product);
    let q = held / 10000;
    vstd::arithmetic::div_mod::lemma_fundamental_div_mod(held, 10000);
    assert(0 <= held % 10000 < 10000);
    assert(percentage_of(amount, bps) == q);
}

/// The price that falls to each of `count` tokens is not negative, and all
/// of them together do not exceed the price.
proof fn lemma_unit_price_bounded(sale_price: int, count: int)
    requires
        0 <= sale_price <= i128::MAX,
        count >= 0,
    ensures
        unit_price(sale_price as i128, count) >= 0,
        count * unit_price(sale_price as i128, count) <= sale_price,
{
    if count > 0 {
        let q = sale_price / count;
        vstd::arithmetic::div_mod::lemma_fundamental_div_mod(sale_price, count);
        let m = sale_price % count;
        assert(0 <= m < count) by (nonlinear_arith)
            requires
                m == sale_price % count,
                count > 0,
        ;
        assert(q >= 0 && count * q <= sale_price && q <= sale_price) by (nonlinear_arith)
            requires
                sale_price == count * q + m,
                0 <= m < count,
                sale_price >= 0,
                count > 0,
        ;
        assert(quotient(sale_price, count) == q);
    } else {
        assert(count * 0 == 0);
    }
}

/// Where no amount is negative, what the entries give to a recipient is not
/// negative.
proof fn lemma_amount_or_zero_no_debt(entries: Seq<(Address, i128)>, who: Address)
    requires
        no_debts(entries),
    ensures
        amount_or_zero(entries, who) >= 0,
{
    if has_recipient(entries, who) {
        let k = choose|k: int| 0 <= k < entries.len() && #[trigger] entries[k].0 == who;
        assert(entries[k].1 >= 0);
    }
}


/// Whether every token of the lists has a royalty record.
pub open spec fn all_recorded(
    records: Seq<RoyaltyInfo>,
    nft_contracts: Seq<Address>,
    token_ids: Seq<u64>,
) -> bool {
    forall|i: int|
        0 <= i < nft_contracts.len() && i < token_ids.len() ==> has_royalty(
            records,
            #[trigger] nft_contracts[i],
            token_ids[i],
        )
}

/// With valid records, a record for each of the first `n` tokens and a
/// price per token that is not negative, the tally of those tokens
/// succeeds; no share is negative, no share exceeds the total, and the
/// total is at most half of the price of the tokens.
proof fn lemma_tally_succeeds(
    records: Seq<RoyaltyInfo>,
    nft_contracts: Seq<Address>,
    token_ids: Seq<u64>,
    price: i128,
    n: int,
)
    requires
        valid_records(records),
        all_recorded(records, nft_contracts, token_ids),
        0 <= n <= nft_contracts.len(),
        n <= token_ids.len(),
        price >= 0,
        n * price <= i128::MAX,
    ensures
        tally_items(records, nft_contracts, token_ids, price, n) is Ok,
        0 <= tally_items(records, nft_contracts, token_ids, price, n)->Ok_0.total,
        2 * tally_items(records, nft_contracts, token_ids, price, n)->Ok_0.total <= n * price,
        forall|w: Address|
            0 <= #[trigger] share_or_zero(
                tally_items(records, nft_contracts, token_ids, price, n)->Ok_0.shares,
                w,
            ) <= tally_items(records, nft_contracts, token_ids, price, n)->Ok_0.total,
    decreases n,
{
    if n > 0 {
        assert((n - 1) * price + price == n * price) by (nonlinear_arith);
        lemma_tally_succeeds(records, nft_contracts, token_ids, price, n - 1);
        let before = tally_items(records, nft_contracts, token_ids, price, n - 1)->Ok_0;
        let nft = nft_contracts[n - 1];
        let token = token_ids[n - 1];
        assert(has_royalty(records, nft, token));
        royalty_index_is_first(records, nft, token);
        let info = royalty_of(records, nft, token);
        lemma_share_bounded(price as int, info.royalty_percentage as int);
        let amount = percentage_of(price as int, info.royalty_percentage as int);
        assert(0 <= share_or_zero(before.shares, info.creator) <= before.total);
        let after = tally_items(records, nft_contracts, token_ids, price, n)->Ok_0;
        assert(after.total == before.total + amount);
        assert forall|w: Address| 0 <= #[trigger] share_or_zero(after.shares, w)
            <= after.total by {
            assert(0 <= share_or_zero(before.shares, w) <= before.total);
        }
    } else {
        assert(n * price == 0) by (nonlinear_arith)
            requires
                n == 0,
        ;
    }
}

/// The split of a bundle price succeeds where the records are valid, the
/// lists are of one length, every token has a royalty record and the price
/// is not negative.
pub proof fn bundle_split_succeeds(
    records: Seq<RoyaltyInfo>,
    nft_contracts: Seq<Address>,
    token_ids: Seq<u64>,
    sale_price: i128,
    seller: Address,
    platform: Address,
)
    requires
        valid_records(records),
        nft_contracts.len() == token_ids.len(),
        all_recorded(records, nft_contracts, token_ids),
        sale_price >= 0,
    ensures
        complex_outcome(records, nft_contracts, token_ids, sale_price, seller, platform) is Ok,
{
    let n = nft_contracts.len() as int;
    let price = unit_price(sale_price, n);
    lemma_unit_price_bounded(sale_price as int, n);
    lemma_tally_succeeds(records, nft_contracts, token_ids, price, n);
    let tally = tally_items(records, nft_contracts, token_ids, price, n)->Ok_0;
    let remainder = sale_price - tally.total;
    assert(0 <= remainder <= sale_price);
    lemma_share_bounded(remainder, PLATFORM_SHARE_BPS as int);
    let platform_amount = percentage_of(remainder, PLATFORM_SHARE_BPS as int);
    let seller_amount = remainder - platform_amount;
    assert(0 <= share_or_zero(tally.shares, seller) <= tally.total);
    assert(0 <= share_or_zero(tally.shares, platform) <= tally.total);
    let with_seller = tally.shares.insert(
        seller,
        (share_or_zero(tally.shares, seller) + seller_amount) as i128,
    );
    assert(share_or_zero(with_seller, platform) <= tally.total + seller_amount);
}

} // verus!
