//! The guard that keeps one caller from entering one operation twice.
//!
//! A marker stands in the guard from the moment an operation is entered until
//! it is left. While the host moves assets on behalf of an operation, another
//! call of the same operation by the same caller finds the marker and is
//! turned down.

use crate::host::same_address;
use crate::marketplace_settlement::error::SettlementError;
use soroban_sdk::Address;
use vstd::prelude::*;

verus! {

/// The operations that the guard tells apart. Those of auctions and of
/// disputes are carried out by the engines of the host, which enter and leave
/// the guard around their work.
#[derive(Clone, Copy, Debug, PartialEq, Eq, Structural)]
pub enum Operation {
    CreateSale,
    ExecuteSale,
    CreateAuction,
    PlaceBid,
    RevealBid,
    EndAuction,
    CreateTrade,
    AcceptTrade,
    ExecuteTrade,
    CreateBundle,
    CancelTransaction,
    InitiateDispute,
    VoteOnDispute,
    ExecuteDisputeResolution,
    ExecuteSwap,
}

/// The markers of the operations that are in flight.
pub struct ReentrancyGuard {
    in_flight: Vec<(Address, Operation)>,
}

/// Whether `i` is the first place at which `marker` stands in `markers`.
pub open spec fn first_marker_at(
    markers: Seq<(Address, Operation)>,
    marker: (Address, Operation),
    i: int,
) -> bool {
    &&& 0 <= i < markers.len()
    &&& markers[i] == marker
    &&& forall|j: int| 0 <= j < i ==> markers[j] != marker
}

/// The markers without the first occurrence of `marker`.
pub open spec fn released(
    markers: Seq<(Address, Operation)>,
    marker: (Address, Operation),
) -> Seq<(Address, Operation)> {
    if markers.contains(marker) {
        markers.remove(choose|i: int| first_marker_at(markers, marker, i))
    } else {
        markers
    }
}

/// Leaving an operation that was entered last restores the markers that stood
/// before it was entered.
pub proof fn release_undoes_acquire(
    markers: Seq<(Address, Operation)>,
    marker: (Address, Operation),
)
    requires
        !markers.contains(marker),
    ensures
        released(markers.push(marker), marker) == markers,
{
    let pushed = markers.push(marker);
    let last = markers.len() as int;
    assert(pushed[last] == marker);
    assert(pushed.contains(marker));
    assert forall|j: int| 0 <= j < last implies pushed[j] != marker by {
        assert(markers[j] == pushed[j]);
        assert(markers.contains(markers[j]));
    }
    assert(first_marker_at(pushed, marker, last));
    let i = choose|i: int| first_marker_at(pushed, marker, i);
    assert(i == last);
    assert(pushed.remove(last) =~= markers);
}

impl View for ReentrancyGuard {
    type V = Seq<(Address, Operation)>;

    closed spec fn view(&self) -> Seq<(Address, Operation)> {
        self.in_flight@
    }
}

impl ReentrancyGuard {
    /// A guard with no operation in flight.
    pub fn new() -> (r: Self)
        ensures
            r@ == Seq::<(Address, Operation)>::empty(),
    {
        ReentrancyGuard { in_flight: Vec::new() }
    }

    /// The place of the first marker of `caller` for `operation`, if one
    /// stands.
    fn position(&self, caller: &Address, operation: Operation) -> (r: Option<usize>)
        ensures
            r is Some <==> self@.contains((*caller, operation)),
            r is Some ==> first_marker_at(self@, (*caller, operation), r->0 as int),
    {
        let mut i: usize = 0;
        while i < self.in_flight.len()
            invariant
                i <= self.in_flight.len(),
                forall|j: int| 0 <= j < i ==> self.in_flight@[j] != (*caller, operation),
            decreases self.in_flight.len() - i,
        {
            if same_address(&self.in_flight[i].0, caller) && self.in_flight[i].1 == operation {
                assert(self.in_flight@[i as int] == (*caller, operation));
                return Some(i);
            }
            i += 1;
        }
        None
    }

    /// Whether `caller` is inside `operation`.
    pub fn is_active(&self, caller: &Address, operation: Operation) -> (r: bool)
        ensures
            r == self@.contains((*caller, operation)),
    {
        self.position(caller, operation).is_some()
    }

    /// Enters `operation` on behalf of `caller`: sets the marker, or fails
    /// with `Reentrant` and changes nothing where the marker already stands.
    pub fn enter(&mut self, caller: &Address, operation: Operation) -> (r: Result<
        (),
        SettlementError,
    >)
        ensures
            old(self)@.contains((*caller, operation)) ==> r == Err::<(), SettlementError>(
                SettlementError::Reentrant,
            ) && final(self)@ == old(self)@,
            !old(self)@.contains((*caller, operation)) ==> r == Ok::<(), SettlementError>(())
                && final(self)@ == old(self)@.push((*caller, operation)),
    {
        if self.is_active(caller, operation) {
            return Err(SettlementError::Reentrant);
        }
        self.in_flight.push((caller.clone(), operation));
        Ok(())
    }

    /// Leaves `operation` on behalf of `caller`: takes the marker away, if
    /// one stands.
    pub fn exit(&mut self, caller: &Address, operation: Operation)
        ensures
            final(self)@ == released(old(self)@, (*caller, operation)),
    {
        match self.position(caller, operation) {
            Some(i) => {
                let ghost marker = (*caller, operation);
                let ghost chosen = choose|k: int| first_marker_at(self@, marker, k);
                assert(first_marker_at(self@, marker, i as int));
                assert(chosen == i as int);
                self.in_flight.remove(i);
            },
            None => {},
        }
    }

    /// How many operations are in flight.
    pub fn active_count(&self) -> (r: usize)
        ensures
            r == self@.len(),
    {
        self.in_flight.len()
    }
}


impl ReentrancyGuard {
    /// The guard with the given markers, as they were read from the ledger.
    pub fn restore(markers: Vec<(Address, Operation)>) -> (r: Self)
        ensures
            r@ == markers@,
    {
        ReentrancyGuard { in_flight: markers }
    }

    /// The markers of the operations that are in flight.
    pub fn markers(&self) -> (r: &Vec<(Address, Operation)>)
        ensures
            r@ == self@,
    {
        &self.in_flight
    }
}

} // verus!
