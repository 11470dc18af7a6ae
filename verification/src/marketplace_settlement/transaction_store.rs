//! The stores of sales, trades and bundles: one record per transaction,
//! numbered from one in the order of their creation, never deleted.

use crate::marketplace_settlement::error::SettlementError;
use crate::marketplace_settlement::types::{
    BundleTransaction, BundleView, SaleTransaction, TradeTransaction, TradeView,
};
use vstd::prelude::*;

verus! {

/// Whether sales are numbered from one in their order.
pub open spec fn numbered_sales(sales: Seq<SaleTransaction>) -> bool {
    forall|i: int| 0 <= i < sales.len() ==> (#[trigger] sales[i]).transaction_id == i + 1
}

/// Whether a sale has the identifier.
pub open spec fn has_sale(sales: Seq<SaleTransaction>, id: u64) -> bool {
    1 <= id <= sales.len()
}

/// The sale with the identifier.
pub open spec fn sale_of(sales: Seq<SaleTransaction>, id: u64) -> SaleTransaction {
    sales[id - 1]
}

/// The identifier that the next sale gets, if one is left.
pub open spec fn next_sale_id(sales: Seq<SaleTransaction>) -> Option<u64> {
    if sales.len() < u64::MAX {
        Some((sales.len() + 1) as u64)
    } else {
        None
    }
}

/// The store of sales.
pub struct SaleTransactionStore {
    records: Vec<SaleTransaction>,
}

impl View for SaleTransactionStore {
    type V = Seq<SaleTransaction>;

    closed spec fn view(&self) -> Seq<SaleTransaction> {
        self.records@
    }
}

impl SaleTransactionStore {
    /// A store without records.
    pub fn new() -> (r: Self)
        ensures
            r@ == Seq::<SaleTransaction>::empty(),
            numbered_sales(r@),
    {
        let r = SaleTransactionStore { records: Vec::new() };
        assert(r@ =~= Seq::<SaleTransaction>::empty());
        r
    }

    /// The store with the given records, as they were read from the
    /// ledger, or nothing where they are not numbered from one in their
    /// order.
    pub fn restore(records: Vec<SaleTransaction>) -> (r: Option<Self>)
        ensures
            r is Some <==> numbered_sales(records@),
            r is Some ==> r->0@ == records@,
    {
        let ghost view = records@;
        let mut i: usize = 0;
        while i < records.len()
            invariant
                i <= records.len(),
                view == records@,
                forall|k: int| 0 <= k < i ==> (#[trigger] view[k]).transaction_id == k + 1,
            decreases records.len() - i,
        {
            if i as u64 == u64::MAX || records[i].transaction_id != i as u64 + 1 {
                assert(view[i as int].transaction_id != i + 1);
                return None;
            }
            i += 1;
        }
        let r = SaleTransactionStore { records };
        assert(r@ =~= view);
        Some(r)
    }

    /// The records, oldest first.
    pub fn records(&self) -> (r: &Vec<SaleTransaction>)
        ensures
            r@.len() == self@.len(),
            forall|i: int| 0 <= i < r@.len() ==> r@[i] == self@[i],
    {
        &self.records
    }

    /// The identifier that the next record gets, if one is left.
    pub fn next_id(&self) -> (r: Option<u64>)
        ensures
            r == next_sale_id(self@),
    {
        let n: usize = self.records.len();
        if n as u64 == u64::MAX {
            None
        } else {
            Some(n as u64 + 1)
        }
    }

    /// Adds a record, which must carry the next identifier; fails with
    /// `InvalidState` and changes nothing where it carries another.
    pub fn put(&mut self, record: SaleTransaction) -> (r: Result<(), SettlementError>)
        requires
            numbered_sales(old(self)@),
        ensures
            numbered_sales(final(self)@),
            next_sale_id(old(self)@) == Some(record.transaction_id) ==> r is Ok && final(self)@ == old(self)@.push(record),
            next_sale_id(old(self)@) != Some(record.transaction_id) ==> r == Err::<(), SettlementError>(
                SettlementError::InvalidState,
            ) && final(self)@ == old(self)@,
    {
        match self.next_id() {
            Some(id) => {
                if id != record.transaction_id {
                    return Err(SettlementError::InvalidState);
                }
            },
            None => {
                return Err(SettlementError::InvalidState);
            },
        }
        self.records.push(record);
        assert(self@ =~= old(self)@.push(record));
        Ok(())
    }

    /// A copy of the record with the identifier, or `NotFound`.
    pub fn get(&self, id: u64) -> (r: Result<SaleTransaction, SettlementError>)
        ensures
            has_sale(self@, id) ==> r is Ok && r->Ok_0 == sale_of(self@, id),
            !has_sale(self@, id) ==> r is Err && r->Err_0 == SettlementError::NotFound,
    {
        if id == 0 || id > self.records.len() as u64 {
            return Err(SettlementError::NotFound);
        }
        Ok(self.records[(id - 1) as usize].clone())
    }

    /// Replaces the record that carries the identifier of `record`, or fails
    /// with `NotFound` and changes nothing where there is none.
    pub fn update(&mut self, record: SaleTransaction) -> (r: Result<(), SettlementError>)
        requires
            numbered_sales(old(self)@),
        ensures
            numbered_sales(final(self)@),
            has_sale(old(self)@, record.transaction_id) ==> r is Ok && final(self)@ == old(self)@.update(record.transaction_id - 1, record),
            !has_sale(old(self)@, record.transaction_id) ==> r == Err::<(), SettlementError>(
                SettlementError::NotFound,
            ) && final(self)@ == old(self)@,
    {
        let id: u64 = record.transaction_id;
        if id == 0 || id > self.records.len() as u64 {
            return Err(SettlementError::NotFound);
        }
        let ghost view = record;
        self.records.set((id - 1) as usize, record);
        assert(self@ =~= old(self)@.update(id - 1, view));
        Ok(())
    }
}

/// Whether trades are numbered from one in their order.
pub open spec fn numbered_trades(trades: Seq<TradeView>) -> bool {
    forall|i: int| 0 <= i < trades.len() ==> (#[trigger] trades[i]).trade_id == i + 1
}

/// Whether a trade has the identifier.
pub open spec fn has_trade(trades: Seq<TradeView>, id: u64) -> bool {
    1 <= id <= trades.len()
}

/// The trade with the identifier.
pub open spec fn trade_of(trades: Seq<TradeView>, id: u64) -> TradeView {
    trades[id - 1]
}

/// The identifier that the next trade gets, if one is left.
pub open spec fn next_trade_id(trades: Seq<TradeView>) -> Option<u64> {
    if trades.len() < u64::MAX {
        Some((trades.len() + 1) as u64)
    } else {
        None
    }
}

/// The store of trades.
pub struct TradeTransactionStore {
    records: Vec<TradeTransaction>,
}

impl View for TradeTransactionStore {
    type V = Seq<TradeView>;

    closed spec fn view(&self) -> Seq<TradeView> {
        Seq::new(self.records@.len(), |i: int| self.records@[i]@)
    }
}

impl TradeTransactionStore {
    /// A store without records.
    pub fn new() -> (r: Self)
        ensures
            r@ == Seq::<TradeView>::empty(),
            numbered_trades(r@),
    {
        let r = TradeTransactionStore { records: Vec::new() };
        assert(r@ =~= Seq::<TradeView>::empty());
        r
    }

    /// The store with the given records, as they were read from the
    /// ledger, or nothing where they are not numbered from one in their
    /// order.
    pub fn restore(records: Vec<TradeTransaction>) -> (r: Option<Self>)
        ensures
            r is Some <==> numbered_trades(Seq::new(records@.len(), |i: int| records@[i]@)),
            r is Some ==> r->0@ == Seq::new(records@.len(), |i: int| records@[i]@),
    {
        let ghost view = Seq::new(records@.len(), |i: int| records@[i]@);
        let mut i: usize = 0;
        while i < records.len()
            invariant
                i <= records.len(),
                view == Seq::new(records@.len(), |i: int| records@[i]@),
                forall|k: int| 0 <= k < i ==> (#[trigger] view[k]).trade_id == k + 1,
            decreases records.len() - i,
        {
            if i as u64 == u64::MAX || records[i].trade_id != i as u64 + 1 {
                assert(view[i as int].trade_id != i + 1);
                return None;
            }
            i += 1;
        }
        let r = TradeTransactionStore { records };
        assert(r@ =~= view);
        Some(r)
    }

    /// The records, oldest first.
    pub fn records(&self) -> (r: &Vec<TradeTransaction>)
        ensures
            r@.len() == self@.len(),
            forall|i: int| 0 <= i < r@.len() ==> r@[i]@ == self@[i],
    {
        &self.records
    }

    /// The identifier that the next record gets, if one is left.
    pub fn next_id(&self) -> (r: Option<u64>)
        ensures
            r == next_trade_id(self@),
    {
        let n: usize = self.records.len();
        if n as u64 == u64::MAX {
            None
        } else {
            Some(n as u64 + 1)
        }
    }

    /// Adds a record, which must carry the next identifier; fails with
    /// `InvalidState` and changes nothing where it carries another.
    pub fn put(&mut self, record: TradeTransaction) -> (r: Result<(), SettlementError>)
        requires
            numbered_trades(old(self)@),
        ensures
            numbered_trades(final(self)@),
            next_trade_id(old(self)@) == Some(record.trade_id) ==> r is Ok && final(self)@ == old(self)@.push(record@),
            next_trade_id(old(self)@) != Some(record.trade_id) ==> r == Err::<(), SettlementError>(
                SettlementError::InvalidState,
            ) && final(self)@ == old(self)@,
    {
        match self.next_id() {
            Some(id) => {
                if id != record.trade_id {
                    return Err(SettlementError::InvalidState);
                }
            },
            None => {
                return Err(SettlementError::InvalidState);
            },
        }
        self.records.push(record);
        assert(self@ =~= old(self)@.push(record@));
        Ok(())
    }

    /// A copy of the record with the identifier, or `NotFound`.
    pub fn get(&self, id: u64) -> (r: Result<TradeTransaction, SettlementError>)
        ensures
            has_trade(self@, id) ==> r is Ok && r->Ok_0@ == trade_of(self@, id),
            !has_trade(self@, id) ==> r is Err && r->Err_0 == SettlementError::NotFound,
    {
        if id == 0 || id > self.records.len() as u64 {
            return Err(SettlementError::NotFound);
        }
        Ok(self.records[(id - 1) as usize].clone())
    }

    /// Replaces the record that carries the identifier of `record`, or fails
    /// with `NotFound` and changes nothing where there is none.
    pub fn update(&mut self, record: TradeTransaction) -> (r: Result<(), SettlementError>)
        requires
            numbered_trades(old(self)@),
        ensures
            numbered_trades(final(self)@),
            has_trade(old(self)@, record.trade_id) ==> r is Ok && final(self)@ == old(self)@.update(record.trade_id - 1, record@),
            !has_trade(old(self)@, record.trade_id) ==> r == Err::<(), SettlementError>(
                SettlementError::NotFound,
            ) && final(self)@ == old(self)@,
    {
        let id: u64 = record.trade_id;
        if id == 0 || id > self.records.len() as u64 {
            return Err(SettlementError::NotFound);
        }
        let ghost view = record@;
        self.records.set((id - 1) as usize, record);
        assert(self@ =~= old(self)@.update(id - 1, view));
        Ok(())
    }
}

/// Whether bundles are numbered from one in their order.
pub open spec fn numbered_bundles(bundles: Seq<BundleView>) -> bool {
    forall|i: int| 0 <= i < bundles.len() ==> (#[trigger] bundles[i]).bundle_id == i + 1
}

/// Whether a bundle has the identifier.
pub open spec fn has_bundle(bundles: Seq<BundleView>, id: u64) -> bool {
    1 <= id <= bundles.len()
}

/// The bundle with the identifier.
pub open spec fn bundle_of(bundles: Seq<BundleView>, id: u64) -> BundleView {
    bundles[id - 1]
}

/// The identifier that the next bundle gets, if one is left.
pub open spec fn next_bundle_id(bundles: Seq<BundleView>) -> Option<u64> {
    if bundles.len() < u64::MAX {
        Some((bundles.len() + 1) as u64)
    } else {
        None
    }
}

/// The store of bundles.
pub struct BundleTransactionStore {
    records: Vec<BundleTransaction>,
}

impl View for BundleTransactionStore {
    type V = Seq<BundleView>;

    closed spec fn view(&self) -> Seq<BundleView> {
        Seq::new(self.records@.len(), |i: int| self.records@[i]@)
    }
}

impl BundleTransactionStore {
    /// A store without records.
    pub fn new() -> (r: Self)
        ensures
            r@ == Seq::<BundleView>::empty(),
            numbered_bundles(r@),
    {
        let r = BundleTransactionStore { records: Vec::new() };
        assert(r@ =~= Seq::<BundleView>::empty());
        r
    }

    /// The store with the given records, as they were read from the
    /// ledger, or nothing where they are not numbered from one in their
    /// order.
    pub fn restore(records: Vec<BundleTransaction>) -> (r: Option<Self>)
        ensures
            r is Some <==> numbered_bundles(Seq::new(records@.len(), |i: int| records@[i]@)),
            r is Some ==> r->0@ == Seq::new(records@.len(), |i: int| records@[i]@),
    {
        let ghost view = Seq::new(records@.len(), |i: int| records@[i]@);
        let mut i: usize = 0;
        while i < records.len()
            invariant
                i <= records.len(),
                view == Seq::new(records@.len(), |i: int| records@[i]@),
                forall|k: int| 0 <= k < i ==> (#[trigger] view[k]).bundle_id == k + 1,
            decreases records.len() - i,
        {
            if i as u64 == u64::MAX || records[i].bundle_id != i as u64 + 1 {
                assert(view[i as int].bundle_id != i + 1);
                return None;
            }
            i += 1;
        }
        let r = BundleTransactionStore { records };
        assert(r@ =~= view);
        Some(r)
    }

    /// The records, oldest first.
    pub fn records(&self) -> (r: &Vec<BundleTransaction>)
        ensures
            r@.len() == self@.len(),
            forall|i: int| 0 <= i < r@.len() ==> r@[i]@ == self@[i],
    {
        &self.records
    }

    /// The identifier that the next record gets, if one is left.
    pub fn next_id(&self) -> (r: Option<u64>)
        ensures
            r == next_bundle_id(self@),
    {
        let n: usize = self.records.len();
        if n as u64 == u64::MAX {
            None
        } else {
            Some(n as u64 + 1)
        }
    }

    /// Adds a record, which must carry the next identifier; fails with
    /// `InvalidState` and changes nothing where it carries another.
    pub fn put(&mut self, record: BundleTransaction) -> (r: Result<(), SettlementError>)
        requires
            numbered_bundles(old(self)@),
        ensures
            numbered_bundles(final(self)@),
            next_bundle_id(old(self)@) == Some(record.bundle_id) ==> r is Ok && final(self)@ == old(self)@.push(record@),
            next_bundle_id(old(self)@) != Some(record.bundle_id) ==> r == Err::<(), SettlementError>(
                SettlementError::InvalidState,
            ) && final(self)@ == old(self)@,
    {
        match self.next_id() {
            Some(id) => {
                if id != record.bundle_id {
                    return Err(SettlementError::InvalidState);
                }
            },
            None => {
                return Err(SettlementError::InvalidState);
            },
        }
        self.records.push(record);
        assert(self@ =~= old(self)@.push(record@));
        Ok(())
    }

    /// A copy of the record with the identifier, or `NotFound`.
    pub fn get(&self, id: u64) -> (r: Result<BundleTransaction, SettlementError>)
        ensures
            has_bundle(self@, id) ==> r is Ok && r->Ok_0@ == bundle_of(self@, id),
            !has_bundle(self@, id) ==> r is Err && r->Err_0 == SettlementError::NotFound,
    {
        if id == 0 || id > self.records.len() as u64 {
            return Err(SettlementError::NotFound);
        }
        Ok(self.records[(id - 1) as usize].clone())
    }

    /// Replaces the record that carries the identifier of `record`, or fails
    /// with `NotFound` and changes nothing where there is none.
    pub fn update(&mut self, record: BundleTransaction) -> (r: Result<(), SettlementError>)
        requires
            numbered_bundles(old(self)@),
        ensures
            numbered_bundles(final(self)@),
            has_bundle(old(self)@, record.bundle_id) ==> r is Ok && final(self)@ == old(self)@.update(record.bundle_id - 1, record@),
            !has_bundle(old(self)@, record.bundle_id) ==> r == Err::<(), SettlementError>(
                SettlementError::NotFound,
            ) && final(self)@ == old(self)@,
    {
        let id: u64 = record.bundle_id;
        if id == 0 || id > self.records.len() as u64 {
            return Err(SettlementError::NotFound);
        }
        let ghost view = record@;
        self.records.set((id - 1) as usize, record);
        assert(self@ =~= old(self)@.update(id - 1, view));
        Ok(())
    }
}

} // verus!
