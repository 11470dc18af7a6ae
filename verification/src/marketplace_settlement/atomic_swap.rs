//! Escrow and atomic swaps: two legs of assets held against a transaction
//! and released only as a pair.
//!
//! The engine decides; the host moves the assets. An operation that needs a
//! movement comes in two parts: a function that names the transfers to
//! perform, and the operation itself, which takes what became of them.

use crate::host::same_address;
use crate::marketplace_settlement::error::SettlementError;
use crate::marketplace_settlement::events::EmergencyWithdrawalEvent;
use crate::marketplace_settlement::reentrancy_guard::{
    release_undoes_acquire, Operation, ReentrancyGuard,
};
use crate::marketplace_settlement::types::{Asset, AssetTransfer, ExecutionResult};
use soroban_sdk::{Address, Bytes};
use vstd::prelude::*;

verus! {

/// One asset held in escrow on behalf of one party.
#[derive(Debug)]
pub struct EscrowHolding {
    pub transaction_id: u64,
    /// Who puts the asset into escrow.
    pub holder: Address,
    pub asset: Asset,
    /// The number of units, or the token's number for a non-fungible token.
    pub amount: i128,
    pub is_nft: bool,
    /// The ledger time of the deposit; zero while nothing was deposited.
    pub deposited_at: u64,
    pub released_at: Option<u64>,
}

impl Clone for EscrowHolding {
    fn clone(&self) -> (r: Self)
        ensures
            r == *self,
    {
        EscrowHolding {
            transaction_id: self.transaction_id,
            holder: self.holder.clone(),
            asset: self.asset.clone(),
            amount: self.amount,
            is_nft: self.is_nft,
            deposited_at: self.deposited_at,
            released_at: self.released_at,
        }
    }
}

/// Where a swap stands.
#[derive(Clone, Copy, Debug, PartialEq, Eq, PartialOrd, Ord, Structural)]
pub enum SwapState {
    Pending,
    SellerFunded,
    BuyerFunded,
    Ready,
    Executed,
    Failed,
}

/// The two legs of one transaction and their common state.
#[derive(Debug)]
pub struct AtomicSwap {
    pub swap_id: u64,
    pub transaction_id: u64,
    pub seller_escrow: Vec<EscrowHolding>,
    pub buyer_escrow: Vec<EscrowHolding>,
    pub state: SwapState,
    pub created_at: u64,
    pub executed_at: Option<u64>,
}

/// A swap as contracts speak of it.
pub ghost struct SwapView {
    pub swap_id: u64,
    pub transaction_id: u64,
    pub seller_escrow: Seq<EscrowHolding>,
    pub buyer_escrow: Seq<EscrowHolding>,
    pub state: SwapState,
    pub created_at: u64,
    pub executed_at: Option<u64>,
}

impl View for AtomicSwap {
    type V = SwapView;

    open spec fn view(&self) -> SwapView {
        SwapView {
            swap_id: self.swap_id,
            transaction_id: self.transaction_id,
            seller_escrow: self.seller_escrow@,
            buyer_escrow: self.buyer_escrow@,
            state: self.state,
            created_at: self.created_at,
            executed_at: self.executed_at,
        }
    }
}

/// A copy of a list of holdings.
pub fn clone_holdings(holdings: &Vec<EscrowHolding>) -> (r: Vec<EscrowHolding>)
    ensures
        r@ == holdings@,
{
    let mut out: Vec<EscrowHolding> = Vec::new();
    let mut i: usize = 0;
    while i < holdings.len()
        invariant
            i <= holdings.len(),
            out@ == holdings@.take(i as int),
        decreases holdings.len() - i,
    {
        out.push(holdings[i].clone());
        assert(holdings@.take(i as int).push(holdings@[i as int]) =~= holdings@.take(i + 1));
        i += 1;
    }
    assert(holdings@.take(holdings.len() as int) =~= holdings@);
    out
}

impl Clone for AtomicSwap {
    fn clone(&self) -> (r: Self)
        ensures
            r@ == self@,
    {
        AtomicSwap {
            swap_id: self.swap_id,
            transaction_id: self.transaction_id,
            seller_escrow: clone_holdings(&self.seller_escrow),
            buyer_escrow: clone_holdings(&self.buyer_escrow),
            state: self.state,
            created_at: self.created_at,
            executed_at: self.executed_at,
        }
    }
}

/// The swap that `initialize_swap` creates: the token under the seller, the
/// payment under the buyer, nothing deposited yet.
pub open spec fn initial_swap(
    swap_id: u64,
    transaction_id: u64,
    seller: Address,
    buyer: Address,
    nft_asset: Asset,
    token_id: u64,
    payment_asset: Asset,
    payment_amount: i128,
    now: u64,
) -> SwapView {
    SwapView {
        swap_id,
        transaction_id,
        seller_escrow: seq![
            EscrowHolding {
                transaction_id,
                holder: seller,
                asset: nft_asset,
                amount: token_id as i128,
                is_nft: true,
                deposited_at: 0,
                released_at: None,
            },
        ],
        buyer_escrow: seq![
            EscrowHolding {
                transaction_id,
                holder: buyer,
                asset: payment_asset,
                amount: payment_amount,
                is_nft: false,
                deposited_at: 0,
                released_at: None,
            },
        ],
        state: SwapState::Pending,
        created_at: now,
        executed_at: None,
    }
}

/// Whether some holding of the list is `who`'s holding of `asset`.
pub open spec fn holds_asset(holdings: Seq<EscrowHolding>, who: Address, asset: Asset) -> bool {
    exists|i: int|
        0 <= i < holdings.len() && (#[trigger] holdings[i]).holder == who && holdings[i].asset
            == asset
}

/// Whether `who` holds anything in the list.
pub open spec fn holds_any(holdings: Seq<EscrowHolding>, who: Address) -> bool {
    exists|i: int| 0 <= i < holdings.len() && (#[trigger] holdings[i]).holder == who
}

/// Whether `who` may deposit `asset` into the swap.
pub open spec fn may_deposit(swap: SwapView, who: Address, asset: Asset) -> bool {
    holds_asset(swap.seller_escrow, who, asset) || holds_asset(swap.buyer_escrow, who, asset)
}

/// Whether `who` is a party to the swap.
pub open spec fn is_party(swap: SwapView, who: Address) -> bool {
    holds_any(swap.seller_escrow, who) || holds_any(swap.buyer_escrow, who)
}

/// Whether a deposit by `who` of `asset` is recorded on `h`: it is that
/// party's holding of that asset.
pub open spec fn takes_deposit(h: EscrowHolding, who: Address, asset: Asset) -> bool {
    h.holder == who && h.asset == asset
}

/// Whether `i` is the first holding of the list that takes the deposit.
pub open spec fn first_taker(
    holdings: Seq<EscrowHolding>,
    who: Address,
    asset: Asset,
    i: int,
) -> bool {
    &&& 0 <= i < holdings.len()
    &&& takes_deposit(holdings[i], who, asset)
    &&& forall|j: int| 0 <= j < i ==> !takes_deposit(#[trigger] holdings[j], who, asset)
}

/// The holding with its deposit stamped at `now`.
pub open spec fn stamped(h: EscrowHolding, now: u64) -> EscrowHolding {
    EscrowHolding { deposited_at: now, ..h }
}

/// The holdings after a deposit: the first holding that takes it is stamped,
/// the others are as before.
pub open spec fn stamp_first(
    holdings: Seq<EscrowHolding>,
    who: Address,
    asset: Asset,
    now: u64,
) -> Seq<EscrowHolding> {
    Seq::new(
        holdings.len(),
        |i: int|
            if first_taker(holdings, who, asset, i) {
                stamped(holdings[i], now)
            } else {
                holdings[i]
            },
    )
}

/// Whether every holding of the list carries a deposit.
pub open spec fn fully_stamped(holdings: Seq<EscrowHolding>) -> bool {
    forall|i: int| 0 <= i < holdings.len() ==> (#[trigger] holdings[i]).deposited_at > 0
}

/// The state that follows from which legs are funded.
pub open spec fn funding_state(seller_funded: bool, buyer_funded: bool) -> SwapState {
    if seller_funded && buyer_funded {
        SwapState::Ready
    } else if seller_funded {
        SwapState::SellerFunded
    } else if buyer_funded {
        SwapState::BuyerFunded
    } else {
        SwapState::Pending
    }
}

/// Whether a swap has come to its end: it was executed or given up.
pub open spec fn is_terminal(state: SwapState) -> bool {
    state == SwapState::Executed || state == SwapState::Failed
}

/// The swap with a deposit by `who` of `asset` stamped at `now` on one
/// holding: the first holding of that party and asset in the seller's leg,
/// or, where that leg has none, the first in the buyer's leg.
pub open spec fn with_stamp(swap: SwapView, who: Address, asset: Asset, now: u64) -> SwapView {
    if holds_asset(swap.seller_escrow, who, asset) {
        SwapView { seller_escrow: stamp_first(swap.seller_escrow, who, asset, now), ..swap }
    } else {
        SwapView { buyer_escrow: stamp_first(swap.buyer_escrow, who, asset, now), ..swap }
    }
}

/// The swap with its state set by which of its legs are funded.
pub open spec fn with_funding_state(swap: SwapView) -> SwapView {
    SwapView {
        state: funding_state(
            fully_stamped(swap.seller_escrow),
            fully_stamped(swap.buyer_escrow),
        ),
        ..swap
    }
}

/// The swap after `who` deposited `asset` at `now`: one holding is stamped
/// and the state follows from which legs are funded. A swap that has come
/// to its end takes no deposit and stays as it is.
pub open spec fn after_deposit(swap: SwapView, who: Address, asset: Asset, now: u64) -> SwapView {
    if is_terminal(swap.state) {
        swap
    } else {
        with_funding_state(with_stamp(swap, who, asset, now))
    }
}

/// The swap after its execution at `now`.
pub open spec fn after_execution(swap: SwapView, now: u64) -> SwapView {
    SwapView { state: SwapState::Executed, executed_at: Some(now), ..swap }
}

/// The swap after it was given up.
pub open spec fn after_failure(swap: SwapView) -> SwapView {
    SwapView { state: SwapState::Failed, ..swap }
}

/// The movement of an asset from `from` into the custody of the engine.
pub open spec fn incoming(
    custody: Address,
    from: Address,
    asset: Asset,
    amount: i128,
    is_nft: bool,
) -> AssetTransfer {
    if is_nft {
        AssetTransfer::Nft { contract: asset.contract, from, to: custody, token_id: amount as u64 }
    } else {
        AssetTransfer::Tokens { contract: asset.contract, from, to: custody, amount }
    }
}

/// The movement of an asset out of the custody of the engine to `to`.
pub open spec fn outgoing(
    custody: Address,
    to: Address,
    asset: Asset,
    amount: i128,
    is_nft: bool,
) -> AssetTransfer {
    if is_nft {
        AssetTransfer::Nft { contract: asset.contract, from: custody, to, token_id: amount as u64 }
    } else {
        AssetTransfer::Tokens { contract: asset.contract, from: custody, to, amount }
    }
}

/// The releases to `to` of those holdings of the list that are tokens of the
/// kind `nft`, in the order of the list.
pub open spec fn releases_to(
    holdings: Seq<EscrowHolding>,
    nft: bool,
    to: Address,
    custody: Address,
) -> Seq<AssetTransfer>
    decreases holdings.len(),
{
    if holdings.len() == 0 {
        Seq::empty()
    } else {
        let before = releases_to(holdings.drop_last(), nft, to, custody);
        let h = holdings.last();
        if h.is_nft == nft {
            before.push(outgoing(custody, to, h.asset, h.amount, h.is_nft))
        } else {
            before
        }
    }
}

/// The transfers that execute a swap: every token of the seller's leg to the
/// first holder of the buyer's leg, then every payment of the buyer's leg to
/// the first holder of the seller's leg.
pub open spec fn swap_legs(swap: SwapView, custody: Address) -> Seq<AssetTransfer> {
    let to_buyer = if swap.buyer_escrow.len() > 0 {
        releases_to(swap.seller_escrow, true, swap.buyer_escrow[0].holder, custody)
    } else {
        Seq::empty()
    };
    let to_seller = if swap.seller_escrow.len() > 0 {
        releases_to(swap.buyer_escrow, false, swap.seller_escrow[0].holder, custody)
    } else {
        Seq::empty()
    };
    to_buyer + to_seller
}

/// The return of every holding of the list to its holder.
pub open spec fn returns_of(holdings: Seq<EscrowHolding>, custody: Address) -> Seq<AssetTransfer> {
    Seq::new(
        holdings.len(),
        |i: int|
            outgoing(
                custody,
                holdings[i].holder,
                holdings[i].asset,
                holdings[i].amount,
                holdings[i].is_nft,
            ),
    )
}

/// The transfers that give every holding of a swap back: the seller's leg,
/// then the buyer's.
pub open spec fn refunds(swap: SwapView, custody: Address) -> Seq<AssetTransfer> {
    returns_of(swap.seller_escrow, custody) + returns_of(swap.buyer_escrow, custody)
}

/// The views of a list of swaps.
pub open spec fn swap_views(swaps: Seq<AtomicSwap>) -> Seq<SwapView> {
    Seq::new(swaps.len(), |i: int| swaps[i]@)
}

/// Whether a swap of the list belongs to the transaction.
pub open spec fn has_swap(swaps: Seq<SwapView>, transaction_id: u64) -> bool {
    exists|i: int| 0 <= i < swaps.len() && (#[trigger] swaps[i]).transaction_id == transaction_id
}

/// Whether `i` is the place of the first swap of the transaction.
pub open spec fn first_swap_at(swaps: Seq<SwapView>, transaction_id: u64, i: int) -> bool {
    &&& 0 <= i < swaps.len()
    &&& swaps[i].transaction_id == transaction_id
    &&& forall|j: int| 0 <= j < i ==> (#[trigger] swaps[j]).transaction_id != transaction_id
}

/// The place of the swap of the transaction.
pub open spec fn swap_index(swaps: Seq<SwapView>, transaction_id: u64) -> int {
    choose|i: int| first_swap_at(swaps, transaction_id, i)
}

/// The swap of the transaction.
pub open spec fn swap_of(swaps: Seq<SwapView>, transaction_id: u64) -> SwapView {
    swaps[swap_index(swaps, transaction_id)]
}

/// The first swap of a transaction is the one that `swap_index` names.
pub proof fn first_swap_is_indexed(swaps: Seq<SwapView>, transaction_id: u64, i: int)
    requires
        first_swap_at(swaps, transaction_id, i),
    ensures
        swap_index(swaps, transaction_id) == i,
        has_swap(swaps, transaction_id),
{
    let k = swap_index(swaps, transaction_id);
    assert(first_swap_at(swaps, transaction_id, k));
    if k < i {
        assert(swaps[k].transaction_id != transaction_id);
    }
    if i < k {
        assert(swaps[i].transaction_id != transaction_id);
    }
}

/// The records of the engine as contracts speak of them.
pub ghost struct EngineView {
    pub swaps: Seq<SwapView>,
    /// The identifier that the next swap gets.
    pub next_swap: u64,
    /// The address under which the engine holds assets.
    pub custody: Address,
}

/// Whether the state of a swap agrees with its holdings: a swap that is
/// neither executed nor given up is in the state that its deposits give.
pub open spec fn settled(swap: SwapView) -> bool {
    swap.state == SwapState::Executed || swap.state == SwapState::Failed || swap.state
        == funding_state(fully_stamped(swap.seller_escrow), fully_stamped(swap.buyer_escrow))
}

/// Whether the records are consistent: no transaction and no identifier
/// occurs twice, every identifier was handed out, and the state of every
/// swap agrees with its holdings.
pub open spec fn consistent(engine: EngineView) -> bool {
    &&& engine.next_swap >= 1
    &&& forall|i: int| 0 <= i < engine.swaps.len() ==> settled(#[trigger] engine.swaps[i])
    &&& forall|i: int|
        0 <= i < engine.swaps.len() ==> (#[trigger] engine.swaps[i]).swap_id < engine.next_swap
    &&& forall|i: int, j: int|
        0 <= i < j < engine.swaps.len() ==> (#[trigger] engine.swaps[i]).transaction_id != (
        #[trigger] engine.swaps[j]).transaction_id && engine.swaps[i].swap_id
            != engine.swaps[j].swap_id
}

/// Atomic swap engine: the swaps, the counter of their identifiers and the
/// address of custody.
pub struct AtomicSwapEngine {
    swaps: Vec<AtomicSwap>,
    next_swap: u64,
    custody: Address,
}

impl View for AtomicSwapEngine {
    type V = EngineView;

    closed spec fn view(&self) -> EngineView {
        EngineView {
            swaps: swap_views(self.swaps@),
            next_swap: self.next_swap,
            custody: self.custody,
        }
    }
}


/// What a deposit comes to before anything is recorded: the swap must exist
/// (`NotFound`), the depositor must hold the asset in it (`Unauthorized`),
/// the swap must not have come to its end (`InvalidState`), and the transfer
/// into custody must have gone through.
pub open spec fn deposit_outcome(
    engine: EngineView,
    transaction_id: u64,
    who: Address,
    asset: Asset,
    transfer: Result<(), SettlementError>,
) -> Result<(), SettlementError> {
    if !has_swap(engine.swaps, transaction_id) {
        Err(SettlementError::NotFound)
    } else if !may_deposit(swap_of(engine.swaps, transaction_id), who, asset) {
        Err(SettlementError::Unauthorized)
    } else if is_terminal(swap_of(engine.swaps, transaction_id).state) {
        Err(SettlementError::InvalidState)
    } else {
        transfer
    }
}

/// The transfer into custody that a deposit needs, or why the deposit is
/// turned down before any transfer is made.
pub open spec fn deposit_plan(
    engine: EngineView,
    transaction_id: u64,
    who: Address,
    asset: Asset,
    amount: i128,
    is_nft: bool,
) -> Result<AssetTransfer, SettlementError> {
    match deposit_outcome(engine, transaction_id, who, asset, Ok(())) {
        Ok(_) => Ok(incoming(engine.custody, who, asset, amount, is_nft)),
        Err(e) => Err(e),
    }
}

/// What an execution comes to once the guard has let it in: the swap must
/// exist and be ready, and the transfers of both legs must have gone through.
pub open spec fn guarded_execution_outcome(
    engine: EngineView,
    transaction_id: u64,
    now: u64,
    transfers: Result<(), SettlementError>,
) -> Result<ExecutionResult, SettlementError> {
    if !has_swap(engine.swaps, transaction_id) {
        Err(SettlementError::NotFound)
    } else if swap_of(engine.swaps, transaction_id).state != SwapState::Ready {
        Err(SettlementError::InvalidState)
    } else {
        match transfers {
            Err(e) => Err(e),
            Ok(_) => Ok(
                ExecutionResult {
                    transaction_id,
                    success: true,
                    transferred_nft: true,
                    transferred_payment: true,
                    distributed_royalties: true,
                    collected_platform_fee: true,
                    timestamp: now,
                },
            ),
        }
    }
}

/// What an execution comes to: the executor must not be inside an execution
/// already; the rest is as for `guarded_execution_outcome`.
pub open spec fn execution_outcome(
    engine: EngineView,
    markers: Seq<(Address, Operation)>,
    transaction_id: u64,
    executor: Address,
    now: u64,
    transfers: Result<(), SettlementError>,
) -> Result<ExecutionResult, SettlementError> {
    if markers.contains((executor, Operation::ExecuteSwap)) {
        Err(SettlementError::Reentrant)
    } else {
        guarded_execution_outcome(engine, transaction_id, now, transfers)
    }
}

/// What a cancellation comes to: the swap must exist, the canceller must be a
/// party to it, and the refunds must have gone through.
pub open spec fn cancellation_outcome(
    engine: EngineView,
    transaction_id: u64,
    canceller: Address,
    refunded: Result<(), SettlementError>,
) -> Result<(), SettlementError> {
    if !has_swap(engine.swaps, transaction_id) {
        Err(SettlementError::NotFound)
    } else if !is_party(swap_of(engine.swaps, transaction_id), canceller) {
        Err(SettlementError::Unauthorized)
    } else {
        refunded
    }
}

/// The records with the swap of the transaction replaced by `swap`.
pub open spec fn with_swap(engine: EngineView, transaction_id: u64, swap: SwapView) -> EngineView {
    EngineView {
        swaps: engine.swaps.update(swap_index(engine.swaps, transaction_id), swap),
        ..engine
    }
}

/// The swap that replaced the swap of a transaction is found under that
/// transaction, and the swaps of other transactions are found as before.
pub proof fn replaced_swap_is_found(engine: EngineView, transaction_id: u64, swap: SwapView)
    requires
        has_swap(engine.swaps, transaction_id),
        swap.transaction_id == transaction_id,
    ensures
        has_swap(with_swap(engine, transaction_id, swap).swaps, transaction_id),
        swap_of(with_swap(engine, transaction_id, swap).swaps, transaction_id) == swap,
        forall|other: u64|
            other != transaction_id ==> has_swap(
                with_swap(engine, transaction_id, swap).swaps,
                other,
            ) == has_swap(engine.swaps, other) && (has_swap(engine.swaps, other) ==> #[trigger] swap_of(
                with_swap(engine, transaction_id, swap).swaps,
                other,
            ) == swap_of(engine.swaps, other)),
{
    let after = with_swap(engine, transaction_id, swap).swaps;
    let w = choose|i: int|
        0 <= i < engine.swaps.len() && (#[trigger] engine.swaps[i]).transaction_id
            == transaction_id;
    lemma_first_swap_below(engine.swaps, transaction_id, w);
    let k = swap_index(engine.swaps, transaction_id);
    assert(first_swap_at(engine.swaps, transaction_id, k));
    assert forall|j: int| 0 <= j < after.len() implies (#[trigger] after[j]).transaction_id
        == engine.swaps[j].transaction_id by {}
    assert(first_swap_at(after, transaction_id, k)) by {
        assert forall|j: int| 0 <= j < k implies (#[trigger] after[j]).transaction_id
            != transaction_id by {
            assert(engine.swaps[j].transaction_id != transaction_id);
        }
    }
    first_swap_is_indexed(after, transaction_id, k);
    assert forall|other: u64| other != transaction_id implies has_swap(after, other) == has_swap(
        engine.swaps,
        other,
    ) && (has_swap(engine.swaps, other) ==> #[trigger] swap_of(after, other) == swap_of(
        engine.swaps,
        other,
    )) by {
        if has_swap(engine.swaps, other) {
            let v = choose|i: int|
                0 <= i < engine.swaps.len() && (#[trigger] engine.swaps[i]).transaction_id
                    == other;
            lemma_first_swap_below(engine.swaps, other, v);
            let m = swap_index(engine.swaps, other);
            assert(first_swap_at(engine.swaps, other, m));
            assert(after[m].transaction_id == other);
            assert(first_swap_at(after, other, m)) by {
                assert forall|j: int| 0 <= j < m implies (#[trigger] after[j]).transaction_id
                    != other by {
                    assert(engine.swaps[j].transaction_id != other);
                }
            }
            first_swap_is_indexed(after, other, m);
            assert(m != k);
            assert(after[m] == engine.swaps[m]);
        }
        if has_swap(after, other) {
            let v = choose|i: int|
                0 <= i < after.len() && (#[trigger] after[i]).transaction_id == other;
            assert(engine.swaps[v].transaction_id == other);
        }
    }
}

/// A swap that was added for a transaction without one is found under that
/// transaction.
pub proof fn added_swap_is_found(swaps: Seq<SwapView>, swap: SwapView)
    requires
        !has_swap(swaps, swap.transaction_id),
    ensures
        has_swap(swaps.push(swap), swap.transaction_id),
        swap_of(swaps.push(swap), swap.transaction_id) == swap,
{
    let after = swaps.push(swap);
    let k = swaps.len() as int;
    assert forall|j: int| 0 <= j < k implies (#[trigger] after[j]).transaction_id
        != swap.transaction_id by {
        assert(after[j] == swaps[j]);
    }
    assert(first_swap_at(after, swap.transaction_id, k));
    first_swap_is_indexed(after, swap.transaction_id, k);
}

/// Below a swap of the transaction there is a first one.
proof fn lemma_first_swap_below(swaps: Seq<SwapView>, transaction_id: u64, n: int)
    requires
        0 <= n < swaps.len(),
        swaps[n].transaction_id == transaction_id,
    ensures
        first_swap_at(swaps, transaction_id, swap_index(swaps, transaction_id)),
    decreases n,
{
    if exists|j: int| 0 <= j < n && (#[trigger] swaps[j]).transaction_id == transaction_id {
        let j = choose|j: int| 0 <= j < n && (#[trigger] swaps[j]).transaction_id == transaction_id;
        lemma_first_swap_below(swaps, transaction_id, j);
    } else {
        assert(first_swap_at(swaps, transaction_id, n));
    }
}

/// Stamps the first holding of the list that takes the deposit, and tells
/// whether there was one.
fn stamp_side(holdings: &mut Vec<EscrowHolding>, depositor: &Address, asset: &Asset, now: u64) -> (r:
    bool)
    ensures
        final(holdings)@ == stamp_first(old(holdings)@, *depositor, *asset, now),
        r == holds_asset(old(holdings)@, *depositor, *asset),
{
    let ghost before = holdings@;
    let mut i: usize = 0;
    while i < holdings.len()
        invariant
            i <= holdings.len(),
            holdings@ == before,
            before == old(holdings)@,
            forall|j: int| 0 <= j < i ==> !takes_deposit(#[trigger] before[j], *depositor, *asset),
        decreases holdings.len() - i,
    {
        if same_address(&holdings[i].holder, depositor) && holdings[i].asset.same(asset) {
            let mut h = holdings[i].clone();
            h.deposited_at = now;
            holdings.set(i, h);
            assert(first_taker(before, *depositor, *asset, i as int));
            assert(holdings@ =~= stamp_first(before, *depositor, *asset, now));
            return true;
        }
        i += 1;
    }
    assert(holdings@ =~= stamp_first(before, *depositor, *asset, now));
    false
}

/// Whether every holding of the list carries a deposit.
fn all_stamped(holdings: &Vec<EscrowHolding>) -> (r: bool)
    ensures
        r == fully_stamped(holdings@),
{
    let mut i: usize = 0;
    while i < holdings.len()
        invariant
            i <= holdings.len(),
            forall|j: int| 0 <= j < i ==> (#[trigger] holdings@[j]).deposited_at > 0,
        decreases holdings.len() - i,
    {
        if holdings[i].deposited_at == 0 {
            return false;
        }
        i += 1;
    }
    true
}

/// Whether some holding of the list is `who`'s holding of `asset`.
fn any_holding_of(holdings: &Vec<EscrowHolding>, who: &Address, asset: &Asset) -> (r: bool)
    ensures
        r == holds_asset(holdings@, *who, *asset),
{
    let mut i: usize = 0;
    while i < holdings.len()
        invariant
            i <= holdings.len(),
            forall|j: int|
                0 <= j < i ==> !((#[trigger] holdings@[j]).holder == *who && holdings@[j].asset
                    == *asset),
        decreases holdings.len() - i,
    {
        if same_address(&holdings[i].holder, who) && holdings[i].asset.same(asset) {
            return true;
        }
        i += 1;
    }
    false
}

/// Whether `who` holds anything in the list.
fn any_holding_by(holdings: &Vec<EscrowHolding>, who: &Address) -> (r: bool)
    ensures
        r == holds_any(holdings@, *who),
{
    let mut i: usize = 0;
    while i < holdings.len()
        invariant
            i <= holdings.len(),
            forall|j: int| 0 <= j < i ==> (#[trigger] holdings@[j]).holder != *who,
        decreases holdings.len() - i,
    {
        if same_address(&holdings[i].holder, who) {
            return true;
        }
        i += 1;
    }
    false
}

impl AtomicSwapEngine {
    /// An engine without swaps that holds assets under `custody`.
    pub fn new(custody: Address) -> (r: Self)
        ensures
            r@ == (EngineView { swaps: Seq::empty(), next_swap: 1, custody }),
            consistent(r@),
    {
        let r = AtomicSwapEngine { swaps: Vec::new(), next_swap: 1, custody };
        assert(r@.swaps =~= Seq::empty());
        r
    }

    /// The address under which the engine holds assets.
    pub fn custody(&self) -> (r: &Address)
        ensures
            *r == self@.custody,
    {
        &self.custody
    }

    /// The swaps that the engine keeps, oldest first.
    pub fn swaps(&self) -> (r: &Vec<AtomicSwap>)
        ensures
            swap_views(r@) == self@.swaps,
    {
        &self.swaps
    }

    /// The identifier that the next swap gets.
    pub fn next_swap(&self) -> (r: u64)
        ensures
            r == self@.next_swap,
    {
        self.next_swap
    }

    /// The place of the swap of the transaction, if there is one.
    fn find(&self, transaction_id: u64) -> (r: Option<usize>)
        ensures
            r is Some ==> first_swap_at(self@.swaps, transaction_id, r->0 as int) && r->0
                < self.swaps@.len(),
            r is Some ==> swap_index(self@.swaps, transaction_id) == r->0 as int,
            r is Some <==> has_swap(self@.swaps, transaction_id),
    {
        let mut i: usize = 0;
        while i < self.swaps.len()
            invariant
                i <= self.swaps.len(),
                self@.swaps.len() == self.swaps@.len(),
                forall|j: int|
                    0 <= j < i ==> (#[trigger] self@.swaps[j]).transaction_id != transaction_id,
            decreases self.swaps.len() - i,
        {
            assert(self@.swaps[i as int] == self.swaps@[i as int]@);
            if self.swaps[i].transaction_id == transaction_id {
                proof {
                    first_swap_is_indexed(self@.swaps, transaction_id, i as int);
                }
                return Some(i);
            }
            i += 1;
        }
        None
    }

    /// Puts `swap` in the place `i`.
    fn store_swap(&mut self, i: usize, swap: AtomicSwap)
        requires
            i < old(self).swaps@.len(),
        ensures
            final(self)@ == (EngineView {
                swaps: old(self)@.swaps.update(i as int, swap@),
                ..old(self)@
            }),
    {
        self.swaps.set(i, swap);
        assert(self@.swaps =~= old(self)@.swaps.update(i as int, swap@));
    }

    /// The identifier for a new swap, if one is left; the counter moves on.
    fn next_swap_id(&mut self) -> (r: Option<u64>)
        ensures
            old(self)@.next_swap < u64::MAX ==> r == Some(old(self)@.next_swap) && final(self)@ == (
            EngineView { next_swap: (old(self)@.next_swap + 1) as u64, ..old(self)@ }),
            old(self)@.next_swap == u64::MAX ==> r is None && final(self)@ == old(self)@,
    {
        if self.next_swap == u64::MAX {
            return None;
        }
        let id: u64 = self.next_swap;
        self.next_swap = id + 1;
        Some(id)
    }

    /// A copy of the swap of the transaction, or `NotFound`.
    pub fn get_swap_by_transaction(&self, transaction_id: u64) -> (r: Result<
        AtomicSwap,
        SettlementError,
    >)
        ensures
            has_swap(self@.swaps, transaction_id) ==> r is Ok && r->Ok_0@ == swap_of(
                self@.swaps,
                transaction_id,
            ),
            !has_swap(self@.swaps, transaction_id) ==> r is Err && r->Err_0
                == SettlementError::NotFound,
    {
        match self.find(transaction_id) {
            Some(i) => {
                assert(self@.swaps[i as int] == self.swaps@[i as int]@);
                Ok(self.swaps[i].clone())
            },
            None => Err(SettlementError::NotFound),
        }
    }

    /// Opens a swap for a transaction: the token under the seller, the
    /// payment under the buyer, nothing deposited, state `Pending`. Fails
    /// with `InvalidState` where the transaction has a swap already, and with
    /// `InvalidAmount` where no identifier is left.
    pub fn initialize_swap(
        &mut self,
        transaction_id: u64,
        seller: &Address,
        buyer: &Address,
        nft_asset: &Asset,
        token_id: u64,
        payment_asset: &Asset,
        payment_amount: i128,
        now: u64,
    ) -> (r: Result<u64, SettlementError>)
        requires
            consistent(old(self)@),
        ensures
            consistent(final(self)@),
            has_swap(old(self)@.swaps, transaction_id) ==> r == Err::<u64, SettlementError>(
                SettlementError::InvalidState,
            ) && final(self)@ == old(self)@,
            !has_swap(old(self)@.swaps, transaction_id) && old(self)@.next_swap == u64::MAX ==> r
                == Err::<u64, SettlementError>(SettlementError::InvalidAmount) && final(self)@
                == old(self)@,
            !has_swap(old(self)@.swaps, transaction_id) && old(self)@.next_swap < u64::MAX ==> r
                == Ok::<u64, SettlementError>(old(self)@.next_swap) && final(self)@ == (EngineView {
                swaps: old(self)@.swaps.push(
                    initial_swap(
                        old(self)@.next_swap,
                        transaction_id,
                        *seller,
                        *buyer,
                        *nft_asset,
                        token_id,
                        *payment_asset,
                        payment_amount,
                        now,
                    ),
                ),
                next_swap: (old(self)@.next_swap + 1) as u64,
                ..old(self)@
            }),
            r is Ok ==> has_swap(final(self)@.swaps, transaction_id) && swap_of(
                final(self)@.swaps,
                transaction_id,
            ) == initial_swap(
                old(self)@.next_swap,
                transaction_id,
                *seller,
                *buyer,
                *nft_asset,
                token_id,
                *payment_asset,
                payment_amount,
                now,
            ),
    {
        if self.find(transaction_id).is_some() {
            return Err(SettlementError::InvalidState);
        }
        let swap_id: u64 = match self.next_swap_id() {
            Some(id) => id,
            None => {
                return Err(SettlementError::InvalidAmount);
            },
        };
        let mut seller_escrow: Vec<EscrowHolding> = Vec::new();
        seller_escrow.push(
            EscrowHolding {
                transaction_id,
                holder: seller.clone(),
                asset: nft_asset.clone(),
                amount: token_id as i128,
                is_nft: true,
                deposited_at: 0,
                released_at: None,
            },
        );
        let mut buyer_escrow: Vec<EscrowHolding> = Vec::new();
        buyer_escrow.push(
            EscrowHolding {
                transaction_id,
                holder: buyer.clone(),
                asset: payment_asset.clone(),
                amount: payment_amount,
                is_nft: false,
                deposited_at: 0,
                released_at: None,
            },
        );
        let swap = AtomicSwap {
            swap_id,
            transaction_id,
            seller_escrow,
            buyer_escrow,
            state: SwapState::Pending,
            created_at: now,
            executed_at: None,
        };
        let ghost made = initial_swap(
            swap_id,
            transaction_id,
            *seller,
            *buyer,
            *nft_asset,
            token_id,
            *payment_asset,
            payment_amount,
            now,
        );
        assert(swap@.seller_escrow =~= made.seller_escrow);
        assert(swap@.buyer_escrow =~= made.buyer_escrow);
        assert(swap@ == made);
        self.swaps.push(swap);
        assert(self@.swaps =~= old(self)@.swaps.push(made));
        proof {
            added_swap_is_found(old(self)@.swaps, made);
        }
        assert(consistent(self@)) by {
            let before = old(self)@.swaps;
            let after = self@.swaps;
            assert forall|i: int| 0 <= i < after.len() implies settled(#[trigger] after[i]) by {
                if i < before.len() {
                    assert(after[i] == before[i]);
                } else {
                    assert(!fully_stamped(made.seller_escrow)) by {
                        assert(made.seller_escrow[0].deposited_at == 0);
                    }
                    assert(!fully_stamped(made.buyer_escrow)) by {
                        assert(made.buyer_escrow[0].deposited_at == 0);
                    }
                }
            }
            assert forall|i: int| 0 <= i < after.len() implies (#[trigger] after[i]).swap_id
                < self@.next_swap by {
                if i < before.len() {
                    assert(after[i] == before[i]);
                }
            }
            assert forall|i: int, j: int| 0 <= i < j < after.len() implies (#[trigger] after[i])
                .transaction_id != (#[trigger] after[j]).transaction_id && after[i].swap_id
                != after[j].swap_id by {
                assert(after[i] == before[i]);
                if j < before.len() {
                    assert(after[j] == before[j]);
                }
            }
        }
        Ok(swap_id)
    }

    /// The movement of an asset from `from` into custody.
    pub fn transfer_to_escrow(&self, from: &Address, asset: &Asset, amount: i128, is_nft: bool) -> (r:
        AssetTransfer)
        ensures
            r == incoming(self@.custody, *from, *asset, amount, is_nft),
    {
        if is_nft {
            AssetTransfer::Nft {
                contract: asset.contract.clone(),
                from: from.clone(),
                to: self.custody.clone(),
                token_id: #[verifier::truncate]
                (amount as u64),
            }
        } else {
            AssetTransfer::Tokens {
                contract: asset.contract.clone(),
                from: from.clone(),
                to: self.custody.clone(),
                amount,
            }
        }
    }

    /// The movement of an asset out of custody to `to`.
    pub fn transfer_from_escrow(&self, to: &Address, asset: &Asset, amount: i128, is_nft: bool) -> (r:
        AssetTransfer)
        ensures
            r == outgoing(self@.custody, *to, *asset, amount, is_nft),
    {
        if is_nft {
            AssetTransfer::Nft {
                contract: asset.contract.clone(),
                from: self.custody.clone(),
                to: to.clone(),
                token_id: #[verifier::truncate]
                (amount as u64),
            }
        } else {
            AssetTransfer::Tokens {
                contract: asset.contract.clone(),
                from: self.custody.clone(),
                to: to.clone(),
                amount,
            }
        }
    }

    /// Appends the releases to `to` of the holdings of the kind `nft`.
    fn push_releases(
        &self,
        out: &mut Vec<AssetTransfer>,
        holdings: &Vec<EscrowHolding>,
        nft: bool,
        to: &Address,
    )
        ensures
            final(out)@ == old(out)@ + releases_to(holdings@, nft, *to, self@.custody),
    {
        let ghost before = out@;
        let mut i: usize = 0;
        assert(holdings@.take(0) =~= Seq::empty());
        assert(out@ =~= before + releases_to(holdings@.take(0), nft, *to, self@.custody));
        while i < holdings.len()
            invariant
                i <= holdings.len(),
                out@ == before + releases_to(holdings@.take(i as int), nft, *to, self@.custody),
            decreases holdings.len() - i,
        {
            let ghost done = releases_to(holdings@.take(i as int), nft, *to, self@.custody);
            assert(holdings@.take(i + 1).drop_last() =~= holdings@.take(i as int));
            assert(holdings@.take(i + 1).last() == holdings@[i as int]);
            if holdings[i].is_nft == nft {
                let t = self.transfer_from_escrow(
                    to,
                    &holdings[i].asset,
                    holdings[i].amount,
                    holdings[i].is_nft,
                );
                out.push(t);
                assert(out@ =~= before + done.push(t));
            }
            i += 1;
        }
        assert(holdings@.take(holdings.len() as int) =~= holdings@);
    }

    /// The transfers that execute `swap`.
    pub fn perform_atomic_swap(&self, swap: &AtomicSwap) -> (r: Vec<AssetTransfer>)
        ensures
            r@ == swap_legs(swap@, self@.custody),
    {
        let mut out: Vec<AssetTransfer> = Vec::new();
        if swap.buyer_escrow.len() > 0 {
            self.push_releases(&mut out, &swap.seller_escrow, true, &swap.buyer_escrow[0].holder);
        }
        if swap.seller_escrow.len() > 0 {
            self.push_releases(&mut out, &swap.buyer_escrow, false, &swap.seller_escrow[0].holder);
        }
        assert(out@ =~= swap_legs(swap@, self@.custody));
        out
    }

    /// Appends the return of every holding of the list to its holder.
    fn push_returns(&self, out: &mut Vec<AssetTransfer>, holdings: &Vec<EscrowHolding>)
        ensures
            final(out)@ == old(out)@ + returns_of(holdings@, self@.custody),
    {
        let ghost before = out@;
        let mut i: usize = 0;
        assert(out@ =~= before + returns_of(holdings@, self@.custody).take(0));
        while i < holdings.len()
            invariant
                i <= holdings.len(),
                out@ == before + returns_of(holdings@, self@.custody).take(i as int),
            decreases holdings.len() - i,
        {
            let t = self.transfer_from_escrow(
                &holdings[i].holder,
                &holdings[i].asset,
                holdings[i].amount,
                holdings[i].is_nft,
            );
            out.push(t);
            assert(out@ =~= before + returns_of(holdings@, self@.custody).take(i + 1));
            i += 1;
        }
        assert(returns_of(holdings@, self@.custody).take(holdings.len() as int) =~= returns_of(
            holdings@,
            self@.custody,
        ));
    }

    /// The transfers that give every holding of `swap` back to its holder.
    pub fn refund_escrow_holdings(&self, swap: &AtomicSwap) -> (r: Vec<AssetTransfer>)
        ensures
            r@ == refunds(swap@, self@.custody),
    {
        let mut out: Vec<AssetTransfer> = Vec::new();
        self.push_returns(&mut out, &swap.seller_escrow);
        self.push_returns(&mut out, &swap.buyer_escrow);
        assert(out@ =~= refunds(swap@, self@.custody));
        out
    }

    /// Records a deposit at `now` on one holding: the first holding of
    /// `depositor` and `asset` in the seller's leg, or, where that leg has
    /// none, the first in the buyer's leg.
    pub fn update_escrow_holding(swap: &mut AtomicSwap, depositor: &Address, asset: &Asset, now: u64)
        ensures
            final(swap)@ == with_stamp(old(swap)@, *depositor, *asset, now),
    {
        let found = stamp_side(&mut swap.seller_escrow, depositor, asset, now);
        if !found {
            assert(swap.seller_escrow@ =~= old(swap).seller_escrow@) by {
                assert forall|i: int| 0 <= i < old(swap).seller_escrow@.len() implies !first_taker(
                    old(swap).seller_escrow@,
                    *depositor,
                    *asset,
                    i,
                ) by {
                    if first_taker(old(swap).seller_escrow@, *depositor, *asset, i) {
                        assert(takes_deposit(old(swap).seller_escrow@[i], *depositor, *asset));
                    }
                }
            }
            stamp_side(&mut swap.buyer_escrow, depositor, asset, now);
        }
    }

    /// Sets the state of `swap` by which of its legs are funded.
    pub fn update_swap_state(swap: &mut AtomicSwap)
        ensures
            final(swap)@ == with_funding_state(old(swap)@),
    {
        let seller_funded = all_stamped(&swap.seller_escrow);
        let buyer_funded = all_stamped(&swap.buyer_escrow);
        if seller_funded && buyer_funded {
            swap.state = SwapState::Ready;
        } else if seller_funded {
            swap.state = SwapState::SellerFunded;
        } else if buyer_funded {
            swap.state = SwapState::BuyerFunded;
        } else {
            swap.state = SwapState::Pending;
        }
    }

    /// The transfer into custody that a deposit needs, or why the deposit is
    /// turned down: `NotFound` without a swap, `Unauthorized` where the
    /// depositor holds no such asset in it, `InvalidState` where the swap
    /// was executed or given up.
    pub fn deposit_transfer(
        &self,
        transaction_id: u64,
        depositor: &Address,
        asset: &Asset,
        amount: i128,
        is_nft: bool,
    ) -> (r: Result<AssetTransfer, SettlementError>)
        ensures
            r == deposit_plan(self@, transaction_id, *depositor, *asset, amount, is_nft),
    {
        let i: usize = match self.find(transaction_id) {
            Some(i) => i,
            None => {
                return Err(SettlementError::NotFound);
            },
        };
        assert(self@.swaps[i as int] == self.swaps@[i as int]@);
        if !any_holding_of(&self.swaps[i].seller_escrow, depositor, asset) && !any_holding_of(
            &self.swaps[i].buyer_escrow,
            depositor,
            asset,
        ) {
            return Err(SettlementError::Unauthorized);
        }
        if self.swaps[i].state == SwapState::Executed || self.swaps[i].state == SwapState::Failed {
            return Err(SettlementError::InvalidState);
        }
        Ok(self.transfer_to_escrow(depositor, asset, amount, is_nft))
    }

    /// Records a deposit whose transfer into custody came to `transfer`.
    ///
    /// Fails with `NotFound` without a swap, with `Unauthorized` where the
    /// depositor holds no such asset in it, and with `InvalidState` where
    /// the swap was executed or given up; a failed transfer is handed back
    /// as it is. On every failure the records stay as they were. Otherwise
    /// the holding is stamped with `now` and the state follows from which
    /// legs are funded.
    pub fn deposit_to_escrow(
        &mut self,
        transaction_id: u64,
        depositor: &Address,
        asset: &Asset,
        amount: i128,
        is_nft: bool,
        now: u64,
        transfer: Result<(), SettlementError>,
    ) -> (r: Result<(), SettlementError>)
        requires
            consistent(old(self)@),
        ensures
            consistent(final(self)@),
            r == deposit_outcome(old(self)@, transaction_id, *depositor, *asset, transfer),
            r is Err ==> final(self)@ == old(self)@,
            r is Ok ==> final(self)@ == with_swap(
                old(self)@,
                transaction_id,
                after_deposit(
                    swap_of(old(self)@.swaps, transaction_id),
                    *depositor,
                    *asset,
                    now,
                ),
            ),
            r is Ok ==> has_swap(final(self)@.swaps, transaction_id) && swap_of(
                final(self)@.swaps,
                transaction_id,
            ) == after_deposit(
                swap_of(old(self)@.swaps, transaction_id),
                *depositor,
                *asset,
                now,
            ),
    {
        let i: usize = match self.find(transaction_id) {
            Some(i) => i,
            None => {
                return Err(SettlementError::NotFound);
            },
        };
        assert(self@.swaps[i as int] == self.swaps@[i as int]@);
        if !any_holding_of(&self.swaps[i].seller_escrow, depositor, asset) && !any_holding_of(
            &self.swaps[i].buyer_escrow,
            depositor,
            asset,
        ) {
            return Err(SettlementError::Unauthorized);
        }
        if self.swaps[i].state == SwapState::Executed || self.swaps[i].state == SwapState::Failed {
            return Err(SettlementError::InvalidState);
        }
        let done: () = match transfer {
            Err(e) => {
                return Err(e);
            },
            Ok(u) => u,
        };
        let mut swap = self.swaps[i].clone();
        Self::update_escrow_holding(&mut swap, depositor, asset, now);
        Self::update_swap_state(&mut swap);
        self.store_swap(i, swap);
        proof {
            lemma_update_keeps_consistent(old(self)@, i as int, self@.swaps[i as int]);
            replaced_swap_is_found(old(self)@, transaction_id, self@.swaps[i as int]);
        }
        Ok(done)
    }

    /// The transfers that execute the swap of the transaction, or why it
    /// cannot be executed: `NotFound` without a swap, `InvalidState` unless
    /// the swap is `Ready`.
    pub fn swap_transfers(&self, transaction_id: u64) -> (r: Result<
        Vec<AssetTransfer>,
        SettlementError,
    >)
        ensures
            !has_swap(self@.swaps, transaction_id) ==> r is Err && r->Err_0
                == SettlementError::NotFound,
            has_swap(self@.swaps, transaction_id) && swap_of(self@.swaps, transaction_id).state
                != SwapState::Ready ==> r is Err && r->Err_0 == SettlementError::InvalidState,
            has_swap(self@.swaps, transaction_id) && swap_of(self@.swaps, transaction_id).state
                == SwapState::Ready ==> r is Ok && r->Ok_0@ == swap_legs(
                swap_of(self@.swaps, transaction_id),
                self@.custody,
            ),
    {
        let i: usize = match self.find(transaction_id) {
            Some(i) => i,
            None => {
                return Err(SettlementError::NotFound);
            },
        };
        assert(self@.swaps[i as int] == self.swaps@[i as int]@);
        if self.swaps[i].state != SwapState::Ready {
            return Err(SettlementError::InvalidState);
        }
        Ok(self.perform_atomic_swap(&self.swaps[i]))
    }

    /// Executes the swap of the transaction, the transfers of both legs
    /// having come to `transfers`.
    ///
    /// Fails with `Reentrant` where the executor is inside an execution
    /// already, with `NotFound` without a swap, with `InvalidState` unless
    /// the swap is `Ready`; a failed transfer is handed back as it is. On
    /// every failure the records stay as they were. Otherwise the swap is
    /// `Executed` at `now`. The guard is left as it was found.
    pub fn execute_swap(
        &mut self,
        guard: &mut ReentrancyGuard,
        transaction_id: u64,
        executor: &Address,
        now: u64,
        transfers: Result<(), SettlementError>,
    ) -> (r: Result<ExecutionResult, SettlementError>)
        requires
            consistent(old(self)@),
        ensures
            consistent(final(self)@),
            final(guard)@ == old(guard)@,
            r == execution_outcome(
                old(self)@,
                old(guard)@,
                transaction_id,
                *executor,
                now,
                transfers,
            ),
            r is Err ==> final(self)@ == old(self)@,
            r is Ok ==> final(self)@ == with_swap(
                old(self)@,
                transaction_id,
                after_execution(swap_of(old(self)@.swaps, transaction_id), now),
            ),
            r is Ok ==> has_swap(final(self)@.swaps, transaction_id) && swap_of(
                final(self)@.swaps,
                transaction_id,
            ) == after_execution(swap_of(old(self)@.swaps, transaction_id), now),
    {
        match guard.enter(executor, Operation::ExecuteSwap) {
            Err(e) => {
                return Err(e);
            },
            Ok(_) => {},
        }
        let r = self.execute_swap_guarded(transaction_id, now, transfers);
        guard.exit(executor, Operation::ExecuteSwap);
        proof {
            release_undoes_acquire(old(guard)@, (*executor, Operation::ExecuteSwap));
        }
        r
    }

    /// The execution itself, inside the guard.
    fn execute_swap_guarded(
        &mut self,
        transaction_id: u64,
        now: u64,
        transfers: Result<(), SettlementError>,
    ) -> (r: Result<ExecutionResult, SettlementError>)
        requires
            consistent(old(self)@),
        ensures
            consistent(final(self)@),
            r == guarded_execution_outcome(old(self)@, transaction_id, now, transfers),
            r is Err ==> final(self)@ == old(self)@,
            r is Ok ==> final(self)@ == with_swap(
                old(self)@,
                transaction_id,
                after_execution(swap_of(old(self)@.swaps, transaction_id), now),
            ),
            r is Ok ==> has_swap(final(self)@.swaps, transaction_id) && swap_of(
                final(self)@.swaps,
                transaction_id,
            ) == after_execution(swap_of(old(self)@.swaps, transaction_id), now),
    {
        let i: usize = match self.find(transaction_id) {
            Some(i) => i,
            None => {
                return Err(SettlementError::NotFound);
            },
        };
        assert(self@.swaps[i as int] == self.swaps@[i as int]@);
        if self.swaps[i].state != SwapState::Ready {
            return Err(SettlementError::InvalidState);
        }
        match transfers {
            Err(e) => {
                return Err(e);
            },
            Ok(_) => {},
        }
        let mut swap = self.swaps[i].clone();
        swap.state = SwapState::Executed;
        swap.executed_at = Some(now);
        self.store_swap(i, swap);
        proof {
            lemma_update_keeps_consistent(old(self)@, i as int, self@.swaps[i as int]);
            replaced_swap_is_found(old(self)@, transaction_id, self@.swaps[i as int]);
        }
        Ok(
            ExecutionResult {
                transaction_id,
                success: true,
                transferred_nft: true,
                transferred_payment: true,
                distributed_royalties: true,
                collected_platform_fee: true,
                timestamp: now,
            },
        )
    }

    /// The refunds that a cancellation on behalf of `canceller` needs: every
    /// holding of the swap back to its holder. Fails with `NotFound` without
    /// a swap and with `Unauthorized` where the canceller holds nothing in
    /// it, as `cancel_swap` does.
    pub fn refund_transfers(&self, transaction_id: u64, canceller: &Address) -> (r: Result<
        Vec<AssetTransfer>,
        SettlementError,
    >)
        ensures
            cancellation_outcome(self@, transaction_id, *canceller, Ok(())) is Err ==> r is Err
                && r->Err_0 == cancellation_outcome(
                self@,
                transaction_id,
                *canceller,
                Ok(()),
            )->Err_0,
            cancellation_outcome(self@, transaction_id, *canceller, Ok(())) is Ok ==> r is Ok
                && r->Ok_0@ == refunds(swap_of(self@.swaps, transaction_id), self@.custody),
    {
        let i: usize = match self.find(transaction_id) {
            Some(i) => i,
            None => {
                return Err(SettlementError::NotFound);
            },
        };
        assert(self@.swaps[i as int] == self.swaps@[i as int]@);
        if !any_holding_by(&self.swaps[i].seller_escrow, canceller) && !any_holding_by(
            &self.swaps[i].buyer_escrow,
            canceller,
        ) {
            return Err(SettlementError::Unauthorized);
        }
        Ok(self.refund_escrow_holdings(&self.swaps[i]))
    }

    /// The refunds that an emergency withdrawal needs, or `NotFound` without
    /// a swap. Who may ask for them is decided by the settlement core, which
    /// alone calls this.
    pub(crate) fn emergency_transfers(&self, transaction_id: u64) -> (r: Result<
        Vec<AssetTransfer>,
        SettlementError,
    >)
        ensures
            !has_swap(self@.swaps, transaction_id) ==> r is Err && r->Err_0
                == SettlementError::NotFound,
            has_swap(self@.swaps, transaction_id) ==> r is Ok && r->Ok_0@ == refunds(
                swap_of(self@.swaps, transaction_id),
                self@.custody,
            ),
    {
        let i: usize = match self.find(transaction_id) {
            Some(i) => i,
            None => {
                return Err(SettlementError::NotFound);
            },
        };
        assert(self@.swaps[i as int] == self.swaps@[i as int]@);
        Ok(self.refund_escrow_holdings(&self.swaps[i]))
    }

    /// Gives the swap of the transaction up on behalf of one of its parties,
    /// the refunds of all holdings having come to `refunded`.
    ///
    /// Fails with `NotFound` without a swap and with `Unauthorized` where the
    /// canceller holds nothing in it; a failed refund is handed back as it
    /// is. On every failure the records stay as they were. Otherwise the swap
    /// is `Failed`, whatever its state was: a swap that was given up before
    /// is refunded again.
    pub fn cancel_swap(
        &mut self,
        transaction_id: u64,
        canceller: &Address,
        refunded: Result<(), SettlementError>,
    ) -> (r: Result<(), SettlementError>)
        requires
            consistent(old(self)@),
        ensures
            consistent(final(self)@),
            r == cancellation_outcome(old(self)@, transaction_id, *canceller, refunded),
            r is Err ==> final(self)@ == old(self)@,
            r is Ok ==> final(self)@ == with_swap(
                old(self)@,
                transaction_id,
                after_failure(swap_of(old(self)@.swaps, transaction_id)),
            ),
            r is Ok ==> has_swap(final(self)@.swaps, transaction_id) && swap_of(
                final(self)@.swaps,
                transaction_id,
            ) == after_failure(swap_of(old(self)@.swaps, transaction_id)),
    {
        let i: usize = match self.find(transaction_id) {
            Some(i) => i,
            None => {
                return Err(SettlementError::NotFound);
            },
        };
        assert(self@.swaps[i as int] == self.swaps@[i as int]@);
        if !any_holding_by(&self.swaps[i].seller_escrow, canceller) && !any_holding_by(
            &self.swaps[i].buyer_escrow,
            canceller,
        ) {
            return Err(SettlementError::Unauthorized);
        }
        let done: () = match refunded {
            Err(e) => {
                return Err(e);
            },
            Ok(u) => u,
        };
        let mut swap = self.swaps[i].clone();
        swap.state = SwapState::Failed;
        self.store_swap(i, swap);
        proof {
            lemma_update_keeps_consistent(old(self)@, i as int, self@.swaps[i as int]);
            replaced_swap_is_found(old(self)@, transaction_id, self@.swaps[i as int]);
        }
        Ok(done)
    }

    /// Takes the assets of a stuck transaction out of escrow without regard
    /// to the state of its swap, the refunds of all holdings having come to
    /// `refunded`. Whether `admin` may do so is for the caller to decide.
    ///
    /// Fails with `NotFound` without a swap; a failed refund is handed back
    /// as it is. On every failure the records stay as they were. Otherwise
    /// the swap is `Failed` and the record of the withdrawal is returned for
    /// the host to publish.
    pub fn emergency_withdraw(
        &mut self,
        transaction_id: u64,
        admin: &Address,
        reason: Bytes,
        now: u64,
        refunded: Result<(), SettlementError>,
    ) -> (r: Result<EmergencyWithdrawalEvent, SettlementError>)
        requires
            consistent(old(self)@),
        ensures
            consistent(final(self)@),
            !has_swap(old(self)@.swaps, transaction_id) ==> r is Err && r->Err_0
                == SettlementError::NotFound,
            has_swap(old(self)@.swaps, transaction_id) && refunded is Err ==> r is Err && r->Err_0
                == refunded->Err_0,
            has_swap(old(self)@.swaps, transaction_id) && refunded is Ok ==> r is Ok && r->Ok_0 == (
            EmergencyWithdrawalEvent { transaction_id, admin: *admin, reason, timestamp: now }),
            r is Err ==> final(self)@ == old(self)@,
            r is Ok ==> final(self)@ == with_swap(
                old(self)@,
                transaction_id,
                after_failure(swap_of(old(self)@.swaps, transaction_id)),
            ),
            r is Ok ==> has_swap(final(self)@.swaps, transaction_id) && swap_of(
                final(self)@.swaps,
                transaction_id,
            ) == after_failure(swap_of(old(self)@.swaps, transaction_id)),
    {
        let i: usize = match self.find(transaction_id) {
            Some(i) => i,
            None => {
                return Err(SettlementError::NotFound);
            },
        };
        assert(self@.swaps[i as int] == self.swaps@[i as int]@);
        match refunded {
            Err(e) => {
                return Err(e);
            },
            Ok(_) => {},
        }
        let mut swap = self.swaps[i].clone();
        swap.state = SwapState::Failed;
        self.store_swap(i, swap);
        proof {
            lemma_update_keeps_consistent(old(self)@, i as int, self@.swaps[i as int]);
            replaced_swap_is_found(old(self)@, transaction_id, self@.swaps[i as int]);
        }
        Ok(EmergencyWithdrawalEvent { transaction_id, admin: admin.clone(), reason, timestamp: now })
    }
}

/// The units of `asset` that the first `n` holdings of the list hold in
/// deposit: the amounts of the holdings of that asset that are no
/// non-fungible tokens and carry a deposit.
pub open spec fn deposited_units(holdings: Seq<EscrowHolding>, asset: Asset, n: int) -> int
    decreases n,
{
    if n <= 0 {
        0
    } else {
        deposited_units(holdings, asset, n - 1) + if counts_towards(holdings[n - 1], asset) {
            holdings[n - 1].amount as int
        } else {
            0
        }
    }
}

/// Whether a holding counts towards the balance of `asset`.
pub open spec fn counts_towards(h: EscrowHolding, asset: Asset) -> bool {
    !h.is_nft && h.deposited_at > 0 && h.asset == asset
}

/// The holdings of the swap of a transaction, the seller's leg first;
/// nothing where the transaction has no swap.
pub open spec fn holdings_of(engine: EngineView, transaction_id: u64) -> Seq<EscrowHolding> {
    if has_swap(engine.swaps, transaction_id) {
        swap_of(engine.swaps, transaction_id).seller_escrow + swap_of(
            engine.swaps,
            transaction_id,
        ).buyer_escrow
    } else {
        Seq::empty()
    }
}

/// Whether the running sum of the deposited units stays in the range of
/// `i128`.
pub open spec fn units_fit(holdings: Seq<EscrowHolding>, asset: Asset) -> bool {
    forall|k: int|
        0 <= k <= holdings.len() ==> i128::MIN <= #[trigger] deposited_units(holdings, asset, k)
            <= i128::MAX
}

/// Escrow manager for the holdings of single transactions.
pub struct EscrowManager;

impl EscrowManager {
    /// The holdings of the swap of the transaction, the seller's leg first;
    /// nothing where the transaction has no swap.
    pub fn get_escrow_holdings(engine: &AtomicSwapEngine, transaction_id: u64) -> (r: Vec<
        EscrowHolding,
    >)
        ensures
            r@ == holdings_of(engine@, transaction_id),
    {
        let mut out: Vec<EscrowHolding> = Vec::new();
        match engine.find(transaction_id) {
            Some(i) => {
                assert(engine@.swaps[i as int] == engine.swaps@[i as int]@);
                let seller = clone_holdings(&engine.swaps[i].seller_escrow);
                let mut buyer = clone_holdings(&engine.swaps[i].buyer_escrow);
                out = seller;
                out.append(&mut buyer);
            },
            None => {},
        }
        out
    }

    /// The units of `asset` that are held in deposit for the transaction,
    /// zero where it has no swap. Fails with `InvalidAmount` where the
    /// running sum leaves the range of `i128`.
    pub fn check_escrow_balance(engine: &AtomicSwapEngine, transaction_id: u64, asset: &Asset) -> (r:
        Result<i128, SettlementError>)
        ensures
            units_fit(holdings_of(engine@, transaction_id), *asset) ==> r == Ok::<
                i128,
                SettlementError,
            >(
                deposited_units(
                    holdings_of(engine@, transaction_id),
                    *asset,
                    holdings_of(engine@, transaction_id).len() as int,
                ) as i128,
            ),
            !units_fit(holdings_of(engine@, transaction_id), *asset) ==> r == Err::<
                i128,
                SettlementError,
            >(SettlementError::InvalidAmount),
    {
        let holdings = Self::get_escrow_holdings(engine, transaction_id);
        let mut total: i128 = 0;
        let mut i: usize = 0;
        while i < holdings.len()
            invariant
                i <= holdings.len(),
                holdings@ == holdings_of(engine@, transaction_id),
                total == deposited_units(holdings@, *asset, i as int),
                forall|k: int|
                    0 <= k <= i ==> i128::MIN <= #[trigger] deposited_units(holdings@, *asset, k)
                        <= i128::MAX,
            decreases holdings.len() - i,
        {
            if !holdings[i].is_nft && holdings[i].deposited_at > 0 && holdings[i].asset.same(asset) {
                total = match total.checked_add(holdings[i].amount) {
                    Some(t) => t,
                    None => {
                        assert(deposited_units(holdings@, *asset, i + 1) == deposited_units(
                            holdings@,
                            *asset,
                            i as int,
                        ) + holdings@[i as int].amount);
                        assert(!units_fit(holdings@, *asset));
                        return Err(SettlementError::InvalidAmount);
                    },
                };
            }
            i += 1;
        }
        Ok(total)
    }

    /// The transfer that releases `amount` units of `asset` out of custody
    /// to `to`.
    pub fn release_escrow(
        engine: &AtomicSwapEngine,
        transaction_id: u64,
        to: &Address,
        asset: &Asset,
        amount: i128,
    ) -> (r: AssetTransfer)
        ensures
            r == outgoing(engine@.custody, *to, *asset, amount, false),
    {
        engine.transfer_from_escrow(to, asset, amount, false)
    }
}

/// Replacing a swap by one with the same identifiers keeps the records
/// consistent.
proof fn lemma_update_keeps_consistent(engine: EngineView, i: int, swap: SwapView)
    requires
        consistent(engine),
        0 <= i < engine.swaps.len(),
        swap.swap_id == engine.swaps[i].swap_id,
        swap.transaction_id == engine.swaps[i].transaction_id,
        settled(swap),
    ensures
        consistent(EngineView { swaps: engine.swaps.update(i, swap), ..engine }),
{
    let after = engine.swaps.update(i, swap);
    assert forall|k: int| 0 <= k < after.len() implies settled(#[trigger] after[k]) by {
        if k != i {
            assert(after[k] == engine.swaps[k]);
        }
    }
    assert forall|k: int| 0 <= k < after.len() implies (#[trigger] after[k]).swap_id
        < engine.next_swap by {
        if k != i {
            assert(after[k] == engine.swaps[k]);
        }
    }
    assert forall|a: int, b: int| 0 <= a < b < after.len() implies (#[trigger] after[a])
        .transaction_id != (#[trigger] after[b]).transaction_id && after[a].swap_id
        != after[b].swap_id by {
        assert(after[a].transaction_id == engine.swaps[a].transaction_id);
        assert(after[b].transaction_id == engine.swaps[b].transaction_id);
        assert(after[a].swap_id == engine.swaps[a].swap_id);
        assert(after[b].swap_id == engine.swaps[b].swap_id);
    }
}


/// Whether the state of a swap may pass from `from` to `to`: it may stay,
/// it may go from `Pending` to `SellerFunded` or `BuyerFunded`, from either
/// of these to `Ready`, from `Ready` to `Executed`, and from anywhere to
/// `Failed`.
pub open spec fn may_follow(from: SwapState, to: SwapState) -> bool {
    ||| from == to
    ||| to == SwapState::Failed
    ||| from == SwapState::Pending && (to == SwapState::SellerFunded || to
        == SwapState::BuyerFunded)
    ||| (from == SwapState::SellerFunded || from == SwapState::BuyerFunded) && to
        == SwapState::Ready
    ||| from == SwapState::Ready && to == SwapState::Executed
}

/// A deposit with a positive time leaves a funded leg funded, and leaves a
/// leg as it was where no holding of it takes the deposit.
proof fn lemma_stamp_first(holdings: Seq<EscrowHolding>, who: Address, asset: Asset, now: u64)
    ensures
        now > 0 && fully_stamped(holdings) ==> fully_stamped(stamp_first(holdings, who, asset, now)),
        !holds_asset(holdings, who, asset) ==> stamp_first(holdings, who, asset, now) == holdings,
        holds_asset(stamp_first(holdings, who, asset, now), who, asset) == holds_asset(
            holdings,
            who,
            asset,
        ),
{
    let after = stamp_first(holdings, who, asset, now);
    if now > 0 && fully_stamped(holdings) {
        assert forall|i: int| 0 <= i < after.len() implies (#[trigger] after[i]).deposited_at
            > 0 by {
            assert(holdings[i].deposited_at > 0);
        }
    }
    if !holds_asset(holdings, who, asset) {
        assert forall|i: int| 0 <= i < holdings.len() implies after[i] == holdings[i] by {
            assert(!takes_deposit(holdings[i], who, asset));
        }
        assert(after =~= holdings);
    }
    if holds_asset(holdings, who, asset) {
        let i = choose|i: int|
            0 <= i < holdings.len() && (#[trigger] holdings[i]).holder == who && holdings[i].asset
                == asset;
        assert(after[i].holder == who && after[i].asset == asset);
    }
    if holds_asset(after, who, asset) {
        let i = choose|i: int|
            0 <= i < after.len() && (#[trigger] after[i]).holder == who && after[i].asset == asset;
        assert(holdings[i].holder == who && holdings[i].asset == asset);
    }
}

/// A deposit moves the state of a swap along the state machine: for every
/// swap whose state agrees with its holdings, a deposit at a positive
/// ledger time leaves the state as it is or moves it one step towards
/// `Ready`; a swap that was executed or given up stays as it is.
pub proof fn deposit_follows_state_machine(swap: SwapView, who: Address, asset: Asset, now: u64)
    requires
        settled(swap),
        now > 0,
    ensures
        may_follow(swap.state, after_deposit(swap, who, asset, now).state),
        settled(after_deposit(swap, who, asset, now)),
        is_terminal(swap.state) ==> after_deposit(swap, who, asset, now) == swap,
{
    lemma_stamp_first(swap.seller_escrow, who, asset, now);
    lemma_stamp_first(swap.buyer_escrow, who, asset, now);
}

/// Execution moves a swap from `Ready` to `Executed`, and giving a swap up
/// moves it to `Failed`: both are moves of the state machine.
pub proof fn execution_and_failure_follow_state_machine(swap: SwapView, now: u64)
    ensures
        swap.state == SwapState::Ready ==> may_follow(
            swap.state,
            after_execution(swap, now).state,
        ),
        may_follow(swap.state, after_failure(swap).state),
        settled(after_execution(swap, now)),
        settled(after_failure(swap)),
{
}

/// A deposit changes nothing but stamps: both legs keep their number of
/// holdings, and each holding keeps its holder, asset and amount.
pub proof fn deposit_keeps_holdings(swap: SwapView, who: Address, asset: Asset, now: u64)
    ensures
        after_deposit(swap, who, asset, now).seller_escrow.len() == swap.seller_escrow.len(),
        after_deposit(swap, who, asset, now).buyer_escrow.len() == swap.buyer_escrow.len(),
        forall|i: int|
            0 <= i < swap.seller_escrow.len() ==> stamped(
                #[trigger] after_deposit(swap, who, asset, now).seller_escrow[i],
                0,
            ) == stamped(swap.seller_escrow[i], 0),
        forall|i: int|
            0 <= i < swap.buyer_escrow.len() ==> stamped(
                #[trigger] after_deposit(swap, who, asset, now).buyer_escrow[i],
                0,
            ) == stamped(swap.buyer_escrow[i], 0),
{
}

/// Stamping twice is stamping once with the later time.
proof fn lemma_stamp_twice(
    holdings: Seq<EscrowHolding>,
    who: Address,
    asset: Asset,
    first: u64,
    second: u64,
)
    ensures
        stamp_first(stamp_first(holdings, who, asset, first), who, asset, second) == stamp_first(
            holdings,
            who,
            asset,
            second,
        ),
{
    let once = stamp_first(holdings, who, asset, first);
    let twice = stamp_first(once, who, asset, second);
    let direct = stamp_first(holdings, who, asset, second);
    assert forall|i: int| 0 <= i < holdings.len() implies takes_deposit(
        #[trigger] once[i],
        who,
        asset,
    ) == takes_deposit(holdings[i], who, asset) by {}
    assert forall|i: int| 0 <= i < holdings.len() implies first_taker(once, who, asset, i)
        == first_taker(holdings, who, asset, i) by {
        if first_taker(holdings, who, asset, i) {
            assert forall|j: int| 0 <= j < i implies !takes_deposit(
                #[trigger] once[j],
                who,
                asset,
            ) by {
                assert(!takes_deposit(holdings[j], who, asset));
            }
        }
        if first_taker(once, who, asset, i) {
            assert forall|j: int| 0 <= j < i implies !takes_deposit(
                #[trigger] holdings[j],
                who,
                asset,
            ) by {
                assert(!takes_deposit(once[j], who, asset));
            }
        }
    }
    assert(twice =~= direct);
}

/// Depositing twice for the same depositor and asset is depositing once at
/// the later time: the second deposit renews the stamp and adds no holding.
pub proof fn repeated_deposit_renews_stamp(
    swap: SwapView,
    who: Address,
    asset: Asset,
    first: u64,
    second: u64,
)
    ensures
        after_deposit(after_deposit(swap, who, asset, first), who, asset, second) == after_deposit(
            swap,
            who,
            asset,
            second,
        ),
        after_deposit(after_deposit(swap, who, asset, first), who, asset, second).seller_escrow.len()
            == swap.seller_escrow.len(),
        after_deposit(after_deposit(swap, who, asset, first), who, asset, second).buyer_escrow.len()
            == swap.buyer_escrow.len(),
{
    lemma_stamp_twice(swap.seller_escrow, who, asset, first, second);
    lemma_stamp_twice(swap.buyer_escrow, who, asset, first, second);
    lemma_stamp_first(swap.seller_escrow, who, asset, first);
    lemma_stamp_first(swap.buyer_escrow, who, asset, first);
}

/// Whether the state of `swap` agrees with its holdings.
fn is_settled(swap: &AtomicSwap) -> (r: bool)
    ensures
        r == settled(swap@),
{
    if swap.state == SwapState::Executed || swap.state == SwapState::Failed {
        return true;
    }
    let seller_funded = all_stamped(&swap.seller_escrow);
    let buyer_funded = all_stamped(&swap.buyer_escrow);
    if seller_funded && buyer_funded {
        swap.state == SwapState::Ready
    } else if seller_funded {
        swap.state == SwapState::SellerFunded
    } else if buyer_funded {
        swap.state == SwapState::BuyerFunded
    } else {
        swap.state == SwapState::Pending
    }
}

/// Whether the swap at `i` shares no transaction and no identifier with a
/// swap before it.
fn is_new_among(swaps: &Vec<AtomicSwap>, i: usize) -> (r: bool)
    requires
        i < swaps@.len(),
    ensures
        r == (forall|j: int|
            0 <= j < i ==> (#[trigger] swaps@[j]).transaction_id != swaps@[i as int].transaction_id
                && swaps@[j].swap_id != swaps@[i as int].swap_id),
{
    let mut j: usize = 0;
    while j < i
        invariant
            j <= i,
            i < swaps@.len(),
            forall|k: int|
                0 <= k < j ==> (#[trigger] swaps@[k]).transaction_id
                    != swaps@[i as int].transaction_id && swaps@[k].swap_id
                    != swaps@[i as int].swap_id,
        decreases i - j,
    {
        if swaps[j].transaction_id == swaps[i].transaction_id || swaps[j].swap_id
            == swaps[i].swap_id {
            return false;
        }
        j += 1;
    }
    true
}

impl AtomicSwapEngine {
    /// The engine with the given records, as they were read from the
    /// ledger, or nothing where they are not consistent.
    pub fn restore(custody: Address, next_swap: u64, swaps: Vec<AtomicSwap>) -> (r: Option<Self>)
        ensures
            r is Some <==> consistent(
                EngineView { swaps: swap_views(swaps@), next_swap, custody },
            ),
            r is Some ==> r->0@ == (EngineView { swaps: swap_views(swaps@), next_swap, custody }),
    {
        let ghost view = EngineView { swaps: swap_views(swaps@), next_swap, custody };
        if next_swap < 1 {
            return None;
        }
        let mut i: usize = 0;
        while i < swaps.len()
            invariant
                i <= swaps.len(),
                next_swap >= 1,
                view == (EngineView { swaps: swap_views(swaps@), next_swap, custody }),
                forall|k: int| 0 <= k < i ==> settled(#[trigger] view.swaps[k]),
                forall|k: int| 0 <= k < i ==> (#[trigger] view.swaps[k]).swap_id < next_swap,
                forall|a: int, b: int|
                    0 <= a < b < i ==> (#[trigger] view.swaps[a]).transaction_id != (
                    #[trigger] view.swaps[b]).transaction_id && view.swaps[a].swap_id
                        != view.swaps[b].swap_id,
            decreases swaps.len() - i,
        {
            assert(view.swaps[i as int] == swaps@[i as int]@);
            if !is_settled(&swaps[i]) || swaps[i].swap_id >= next_swap {
                return None;
            }
            if !is_new_among(&swaps, i) {
                proof {
                    let j = choose|j: int|
                        0 <= j < i && !((#[trigger] swaps@[j]).transaction_id
                            != swaps@[i as int].transaction_id && swaps@[j].swap_id
                            != swaps@[i as int].swap_id);
                    assert(view.swaps[j] == swaps@[j]@);
                }
                return None;
            }
            proof {
                assert forall|a: int, b: int| 0 <= a < b < i + 1 implies (#[trigger] view.swaps[a])
                    .transaction_id != (#[trigger] view.swaps[b]).transaction_id
                    && view.swaps[a].swap_id != view.swaps[b].swap_id by {
                    if b == i {
                        assert(view.swaps[a] == swaps@[a]@);
                    }
                }
            }
            i += 1;
        }
        Some(AtomicSwapEngine { swaps, next_swap, custody })
    }
}


/// The swap with `buyer` as the holder of every holding of the buyer's leg.
pub open spec fn with_buyer(swap: SwapView, buyer: Address) -> SwapView {
    SwapView {
        buyer_escrow: Seq::new(
            swap.buyer_escrow.len(),
            |i: int| EscrowHolding { holder: buyer, ..swap.buyer_escrow[i] },
        ),
        ..swap
    }
}

/// Whether nothing was deposited on the list of holdings.
pub open spec fn unstamped(holdings: Seq<EscrowHolding>) -> bool {
    forall|i: int| 0 <= i < holdings.len() ==> (#[trigger] holdings[i]).deposited_at == 0
}

/// The swap as it stands once `buyer` has taken the buyer's leg and
/// deposited `asset` at `now`.
pub open spec fn funded_by(swap: SwapView, buyer: Address, asset: Asset, now: u64) -> SwapView {
    after_deposit(with_buyer(swap, buyer), buyer, asset, now)
}

/// Whether a purchase has the buyer take the buyer's leg and pay into
/// custody: it has, unless the swap is `Ready` as it stands.
pub open spec fn needs_payment(swap: SwapView) -> bool {
    swap.state != SwapState::Ready
}

/// The swap that a purchase executes: the swap as it stands where it is
/// `Ready`, else the swap with the buyer in the buyer's leg and the buyer's
/// deposit.
pub open spec fn purchased(swap: SwapView, buyer: Address, asset: Asset, now: u64) -> SwapView {
    if needs_payment(swap) {
        funded_by(swap, buyer, asset, now)
    } else {
        swap
    }
}

/// The swap after a purchase at `now`.
pub open spec fn after_purchase(swap: SwapView, buyer: Address, asset: Asset, now: u64) -> SwapView {
    after_execution(purchased(swap, buyer, asset, now), now)
}

/// Why a purchase is turned down before any asset moves, if it is, once the
/// guard has let the buyer in. The swap must exist (`NotFound`). A swap that
/// is `Ready` is executed as it stands. Any other swap the buyer funds: it
/// must not have come to its end, and nothing may have been deposited on
/// the buyer's leg, which the buyer takes over (`InvalidState`); the leg
/// must hold the asset that the buyer pays (`Unauthorized`); and with the
/// buyer's deposit the swap must be `Ready` (`InvalidState`).
pub open spec fn guarded_purchase_refusal(
    engine: EngineView,
    transaction_id: u64,
    buyer: Address,
    asset: Asset,
    now: u64,
) -> Option<SettlementError> {
    if !has_swap(engine.swaps, transaction_id) {
        Some(SettlementError::NotFound)
    } else if !needs_payment(swap_of(engine.swaps, transaction_id)) {
        None
    } else if is_terminal(swap_of(engine.swaps, transaction_id).state) || !unstamped(
        swap_of(engine.swaps, transaction_id).buyer_escrow,
    ) {
        Some(SettlementError::InvalidState)
    } else if !may_deposit(with_buyer(swap_of(engine.swaps, transaction_id), buyer), buyer, asset) {
        Some(SettlementError::Unauthorized)
    } else if funded_by(swap_of(engine.swaps, transaction_id), buyer, asset, now).state
        != SwapState::Ready {
        Some(SettlementError::InvalidState)
    } else {
        None
    }
}

/// Why a purchase is turned down before any asset moves, if it is:
/// `Reentrant` where the buyer is inside an execution already, else as
/// `guarded_purchase_refusal` says.
pub open spec fn purchase_refusal(
    engine: EngineView,
    markers: Seq<(Address, Operation)>,
    transaction_id: u64,
    buyer: Address,
    asset: Asset,
    now: u64,
) -> Option<SettlementError> {
    if markers.contains((buyer, Operation::ExecuteSwap)) {
        Some(SettlementError::Reentrant)
    } else {
        guarded_purchase_refusal(engine, transaction_id, buyer, asset, now)
    }
}

/// What a purchase comes to: it must not be turned down; where the buyer
/// pays into custody (`pays`), that payment must have gone through; and the
/// transfers of both legs must have gone through.
pub open spec fn purchase_outcome(
    refusal: Option<SettlementError>,
    pays: bool,
    transaction_id: u64,
    now: u64,
    paid: Result<(), SettlementError>,
    transfers: Result<(), SettlementError>,
) -> Result<ExecutionResult, SettlementError> {
    match refusal {
        Some(e) => Err(e),
        None => if pays && paid is Err {
            Err(paid->Err_0)
        } else {
            match transfers {
                Err(e) => Err(e),
                Ok(_) => Ok(
                    ExecutionResult {
                        transaction_id,
                        success: true,
                        transferred_nft: true,
                        transferred_payment: true,
                        distributed_royalties: true,
                        collected_platform_fee: true,
                        timestamp: now,
                    },
                ),
            }
        },
    }
}

/// The transfers of a purchase: the buyer's payment into custody, where the
/// buyer funds the swap, and the two legs of the swap out of custody.
#[derive(Debug)]
pub struct Purchase {
    pub payment: Option<AssetTransfer>,
    pub legs: Vec<AssetTransfer>,
}

/// Whether `plan` names the transfers of the purchase of `swap`.
pub open spec fn is_purchase_of(
    plan: Purchase,
    swap: SwapView,
    custody: Address,
    buyer: Address,
    asset: Asset,
    amount: i128,
    now: u64,
) -> bool {
    &&& plan.payment == if needs_payment(swap) {
        Some(incoming(custody, buyer, asset, amount, false))
    } else {
        None
    }
    &&& plan.legs@ == swap_legs(purchased(swap, buyer, asset, now), custody)
}

/// Whether nothing was deposited on the list of holdings.
fn none_stamped(holdings: &Vec<EscrowHolding>) -> (r: bool)
    ensures
        r == unstamped(holdings@),
{
    let mut i: usize = 0;
    while i < holdings.len()
        invariant
            i <= holdings.len(),
            forall|j: int| 0 <= j < i ==> (#[trigger] holdings@[j]).deposited_at == 0,
        decreases holdings.len() - i,
    {
        if holdings[i].deposited_at != 0 {
            return false;
        }
        i += 1;
    }
    true
}

/// Makes `buyer` the holder of every holding of the list.
fn assign_holder(holdings: &mut Vec<EscrowHolding>, buyer: &Address)
    ensures
        final(holdings)@ == Seq::new(
            old(holdings)@.len(),
            |i: int| EscrowHolding { holder: *buyer, ..old(holdings)@[i] },
        ),
{
    let ghost before = holdings@;
    let mut i: usize = 0;
    while i < holdings.len()
        invariant
            i <= holdings.len(),
            before == old(holdings)@,
            holdings@.len() == before.len(),
            forall|j: int|
                0 <= j < i ==> holdings@[j] == (EscrowHolding { holder: *buyer, ..before[j] }),
            forall|j: int| i <= j < before.len() ==> holdings@[j] == before[j],
        decreases holdings.len() - i,
    {
        let mut h = holdings[i].clone();
        h.holder = buyer.clone();
        holdings.set(i, h);
        i += 1;
    }
    assert(holdings@ =~= Seq::new(
        before.len(),
        |i: int| EscrowHolding { holder: *buyer, ..before[i] },
    ));
}

impl AtomicSwapEngine {
    /// The place of the swap of the transaction, the swap that the purchase
    /// executes and whether the buyer pays for it, or why the purchase is
    /// turned down.
    fn prepared_purchase(&self, transaction_id: u64, buyer: &Address, asset: &Asset, now: u64) -> (r:
        Result<(usize, AtomicSwap, bool), SettlementError>)
        ensures
            guarded_purchase_refusal(self@, transaction_id, *buyer, *asset, now) is Some ==> r
                is Err && r->Err_0 == guarded_purchase_refusal(
                self@,
                transaction_id,
                *buyer,
                *asset,
                now,
            )->0,
            guarded_purchase_refusal(self@, transaction_id, *buyer, *asset, now) is None ==> r
                is Ok && r->Ok_0.0 < self.swaps@.len() && r->Ok_0.0 as int == swap_index(
                self@.swaps,
                transaction_id,
            ) && r->Ok_0.1@ == purchased(
                swap_of(self@.swaps, transaction_id),
                *buyer,
                *asset,
                now,
            ) && r->Ok_0.2 == needs_payment(swap_of(self@.swaps, transaction_id)),
            r is Ok ==> first_swap_at(self@.swaps, transaction_id, r->Ok_0.0 as int),
    {
        let i: usize = match self.find(transaction_id) {
            Some(i) => i,
            None => {
                return Err(SettlementError::NotFound);
            },
        };
        assert(self@.swaps[i as int] == self.swaps@[i as int]@);
        if self.swaps[i].state == SwapState::Ready {
            return Ok((i, self.swaps[i].clone(), false));
        }
        if self.swaps[i].state == SwapState::Executed || self.swaps[i].state == SwapState::Failed {
            return Err(SettlementError::InvalidState);
        }
        if !none_stamped(&self.swaps[i].buyer_escrow) {
            return Err(SettlementError::InvalidState);
        }
        let mut swap = self.swaps[i].clone();
        assign_holder(&mut swap.buyer_escrow, buyer);
        assert(swap@ == with_buyer(self@.swaps[i as int], *buyer));
        if !any_holding_of(&swap.seller_escrow, buyer, asset) && !any_holding_of(
            &swap.buyer_escrow,
            buyer,
            asset,
        ) {
            return Err(SettlementError::Unauthorized);
        }
        Self::update_escrow_holding(&mut swap, buyer, asset, now);
        Self::update_swap_state(&mut swap);
        if swap.state != SwapState::Ready {
            return Err(SettlementError::InvalidState);
        }
        Ok((i, swap, true))
    }

    /// The transfers of a purchase by `buyer`. A swap that is `Ready` is
    /// executed as it stands: the legs are those of `swap_transfers` and
    /// nothing is paid into custody. Any other swap the buyer funds with
    /// `amount` of `asset`: the payment into custody comes first, and the
    /// legs are those of the swap with the buyer in the buyer's leg. Fails
    /// as `purchase_refusal` says.
    pub fn purchase_transfers(
        &self,
        guard: &ReentrancyGuard,
        transaction_id: u64,
        buyer: &Address,
        asset: &Asset,
        amount: i128,
        now: u64,
    ) -> (r: Result<Purchase, SettlementError>)
        ensures
            purchase_refusal(self@, guard@, transaction_id, *buyer, *asset, now) is Some ==> r
                is Err && r->Err_0 == purchase_refusal(
                self@,
                guard@,
                transaction_id,
                *buyer,
                *asset,
                now,
            )->0,
            purchase_refusal(self@, guard@, transaction_id, *buyer, *asset, now) is None ==> r
                is Ok && is_purchase_of(
                r->Ok_0,
                swap_of(self@.swaps, transaction_id),
                self@.custody,
                *buyer,
                *asset,
                amount,
                now,
            ),
    {
        if guard.is_active(buyer, Operation::ExecuteSwap) {
            return Err(SettlementError::Reentrant);
        }
        let (i, swap, pays) = match self.prepared_purchase(transaction_id, buyer, asset, now) {
            Ok(p) => p,
            Err(e) => {
                return Err(e);
            },
        };
        let payment = if pays {
            Some(self.transfer_to_escrow(buyer, asset, amount, false))
        } else {
            None
        };
        Ok(Purchase { payment, legs: self.perform_atomic_swap(&swap) })
    }

    /// Executes the swap of the transaction for `buyer` at `now`, `transfers`
    /// being what the two legs came to.
    ///
    /// A swap that is `Ready` is executed as it stands, as `execute_swap`
    /// does; `paid` is not looked at. Any other swap the buyer funds first:
    /// the buyer takes the buyer's leg, on which nothing may have been
    /// deposited, and the payment of `asset` into custody, which came to
    /// `paid`, is recorded at `now`.
    ///
    /// Fails as `purchase_refusal` says; a failed payment or transfer is
    /// handed back as it is. On every failure the records stay as they
    /// were. Otherwise the swap is `Executed`. The guard is left as it was
    /// found.
    pub fn purchase(
        &mut self,
        guard: &mut ReentrancyGuard,
        transaction_id: u64,
        buyer: &Address,
        asset: &Asset,
        now: u64,
        paid: Result<(), SettlementError>,
        transfers: Result<(), SettlementError>,
    ) -> (r: Result<ExecutionResult, SettlementError>)
        requires
            consistent(old(self)@),
        ensures
            consistent(final(self)@),
            final(guard)@ == old(guard)@,
            r == purchase_outcome(
                purchase_refusal(old(self)@, old(guard)@, transaction_id, *buyer, *asset, now),
                needs_payment(swap_of(old(self)@.swaps, transaction_id)),
                transaction_id,
                now,
                paid,
                transfers,
            ),
            r is Err ==> final(self)@ == old(self)@,
            r is Ok ==> final(self)@ == with_swap(
                old(self)@,
                transaction_id,
                after_purchase(swap_of(old(self)@.swaps, transaction_id), *buyer, *asset, now),
            ),
            r is Ok ==> has_swap(final(self)@.swaps, transaction_id) && swap_of(
                final(self)@.swaps,
                transaction_id,
            ) == after_purchase(swap_of(old(self)@.swaps, transaction_id), *buyer, *asset, now),
    {
        match guard.enter(buyer, Operation::ExecuteSwap) {
            Err(e) => {
                return Err(e);
            },
            Ok(_) => {},
        }
        let r = self.purchase_guarded(transaction_id, buyer, asset, now, paid, transfers);
        guard.exit(buyer, Operation::ExecuteSwap);
        proof {
            release_undoes_acquire(old(guard)@, (*buyer, Operation::ExecuteSwap));
        }
        r
    }

    /// The purchase itself, inside the guard.
    fn purchase_guarded(
        &mut self,
        transaction_id: u64,
        buyer: &Address,
        asset: &Asset,
        now: u64,
        paid: Result<(), SettlementError>,
        transfers: Result<(), SettlementError>,
    ) -> (r: Result<ExecutionResult, SettlementError>)
        requires
            consistent(old(self)@),
        ensures
            consistent(final(self)@),
            r == purchase_outcome(
                guarded_purchase_refusal(old(self)@, transaction_id, *buyer, *asset, now),
                needs_payment(swap_of(old(self)@.swaps, transaction_id)),
                transaction_id,
                now,
                paid,
                transfers,
            ),
            r is Err ==> final(self)@ == old(self)@,
            r is Ok ==> final(self)@ == with_swap(
                old(self)@,
                transaction_id,
                after_purchase(swap_of(old(self)@.swaps, transaction_id), *buyer, *asset, now),
            ),
            r is Ok ==> has_swap(final(self)@.swaps, transaction_id) && swap_of(
                final(self)@.swaps,
                transaction_id,
            ) == after_purchase(swap_of(old(self)@.swaps, transaction_id), *buyer, *asset, now),
    {
        let (i, mut swap, pays) = match self.prepared_purchase(transaction_id, buyer, asset, now) {
            Ok(p) => p,
            Err(e) => {
                return Err(e);
            },
        };
        if pays {
            match paid {
                Err(e) => {
                    return Err(e);
                },
                Ok(_) => {},
            }
        }
        match transfers {
            Err(e) => {
                return Err(e);
            },
            Ok(_) => {},
        }
        swap.state = SwapState::Executed;
        swap.executed_at = Some(now);
        self.store_swap(i, swap);
        proof {
            assert(old(self)@.swaps[i as int] == swap_of(old(self)@.swaps, transaction_id));
            lemma_update_keeps_consistent(old(self)@, i as int, self@.swaps[i as int]);
            replaced_swap_is_found(old(self)@, transaction_id, self@.swaps[i as int]);
        }
        Ok(
            ExecutionResult {
                transaction_id,
                success: true,
                transferred_nft: true,
                transferred_payment: true,
                distributed_royalties: true,
                collected_platform_fee: true,
                timestamp: now,
            },
        )
    }
}

/// What a purchase hands over: where the seller's leg holds one token and
/// the buyer's leg one payment, the token goes out of custody to the buyer
/// and the payment out of custody to the holder of the seller's leg.
pub proof fn purchase_hands_over(
    swap: SwapView,
    buyer: Address,
    asset: Asset,
    now: u64,
    custody: Address,
)
    requires
        swap.seller_escrow.len() == 1,
        swap.buyer_escrow.len() == 1,
        swap.seller_escrow[0].is_nft,
        !swap.buyer_escrow[0].is_nft,
    ensures
        swap_legs(funded_by(swap, buyer, asset, now), custody) == seq![
            outgoing(
                custody,
                buyer,
                swap.seller_escrow[0].asset,
                swap.seller_escrow[0].amount,
                true,
            ),
            outgoing(
                custody,
                swap.seller_escrow[0].holder,
                swap.buyer_escrow[0].asset,
                swap.buyer_escrow[0].amount,
                false,
            ),
        ],
{
    let funded = funded_by(swap, buyer, asset, now);
    let s = funded.seller_escrow;
    let b = funded.buyer_escrow;
    assert(s.len() == 1 && b.len() == 1);
    assert(s[0].holder == swap.seller_escrow[0].holder && s[0].asset == swap.seller_escrow[0].asset
        && s[0].amount == swap.seller_escrow[0].amount && s[0].is_nft);
    assert(b[0].holder == buyer && b[0].asset == swap.buyer_escrow[0].asset && b[0].amount
        == swap.buyer_escrow[0].amount && !b[0].is_nft);
    assert(s.drop_last() =~= Seq::<EscrowHolding>::empty());
    assert(b.drop_last() =~= Seq::<EscrowHolding>::empty());
    assert(s.last() == s[0]);
    assert(b.last() == b[0]);
    let to_buyer = releases_to(s, true, buyer, custody);
    let to_seller = releases_to(b, false, s[0].holder, custody);
    assert(releases_to(s.drop_last(), true, buyer, custody) =~= Seq::<AssetTransfer>::empty());
    assert(releases_to(b.drop_last(), false, s[0].holder, custody) =~= Seq::<
        AssetTransfer,
    >::empty());
    assert(to_buyer =~= seq![outgoing(custody, buyer, s[0].asset, s[0].amount, true)]);
    assert(to_seller =~= seq![outgoing(custody, s[0].holder, b[0].asset, b[0].amount, false)]);
    assert(swap_legs(funded, custody) =~= to_buyer + to_seller);
}

} // verus!
