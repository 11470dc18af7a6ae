//! The factory: the register of the collections that were deployed.
//!
//! Deploying a collection and setting it up is the work of the host; the
//! factory records what was deployed and under which number.

use crate::collection_factory::error::ContractError;
use crate::collection_factory::events::Created;
use crate::collection_factory::types::{CollectionConfig, CollectionInfo};
use soroban_sdk::Address;
use vstd::prelude::*;

verus! {

/// The factory as contracts speak of it.
pub ghost struct FactoryView {
    pub admin: Address,
    /// The collections, each under the number of its place.
    pub collections: Seq<CollectionInfo>,
}

/// The register of collections.
pub struct CollectionFactory {
    admin: Address,
    collections: Vec<CollectionInfo>,
}

impl View for CollectionFactory {
    type V = FactoryView;

    closed spec fn view(&self) -> FactoryView {
        FactoryView { admin: self.admin, collections: self.collections@ }
    }
}

/// Whether the collections can still be counted in a `u32`.
pub open spec fn countable(f: FactoryView) -> bool {
    f.collections.len() <= u32::MAX
}

impl CollectionFactory {
    /// A factory without collections, administered by `admin`.
    pub fn initialize(admin: Address) -> (r: Self)
        ensures
            r@ == (FactoryView { admin, collections: Seq::empty() }),
            countable(r@),
    {
        CollectionFactory { admin, collections: Vec::new() }
    }

    /// The administrator, who also administers every collection that the
    /// factory registers.
    pub fn admin(&self) -> (r: &Address)
        ensures
            *r == self@.admin,
    {
        &self.admin
    }

    /// Registers the collection that was deployed at `collection_address`
    /// for `creator` at `now`, under the next number. Fails with
    /// `InvalidAmount` and changes nothing where no number is left. On
    /// success the record of the creation is returned for the host to
    /// publish.
    pub fn create_collection(
        &mut self,
        creator: &Address,
        collection_address: Address,
        config: CollectionConfig,
        now: u64,
    ) -> (r: Result<Created, ContractError>)
        requires
            countable(old(self)@),
        ensures
            countable(final(self)@),
            old(self)@.collections.len() == u32::MAX ==> r is Err && r->Err_0
                == ContractError::InvalidAmount && final(self)@ == old(self)@,
            old(self)@.collections.len() < u32::MAX ==> r is Ok && r->Ok_0 == (Created {
                creator: *creator,
                collection: collection_address,
                id: old(self)@.collections.len() as u32,
            }) && final(self)@ == (FactoryView {
                collections: old(self)@.collections.push(
                    CollectionInfo {
                        address: collection_address,
                        creator: *creator,
                        config,
                        created_at: now,
                        total_tokens: 0,
                    },
                ),
                ..old(self)@
            }),
    {
        let count: usize = self.collections.len();
        if count >= u32::MAX as usize {
            return Err(ContractError::InvalidAmount);
        }
        let info = CollectionInfo {
            address: collection_address.clone(),
            creator: creator.clone(),
            config,
            created_at: now,
            total_tokens: 0,
        };
        self.collections.push(info);
        Ok(Created { creator: creator.clone(), collection: collection_address, id: count as u32 })
    }

    /// How many collections were registered.
    pub fn get_collection_count(&self) -> (r: u32)
        requires
            countable(self@),
        ensures
            r == self@.collections.len(),
    {
        self.collections.len() as u32
    }

    /// The address of the collection with the number, if there is one.
    pub fn get_collection_address(&self, id: u32) -> (r: Option<Address>)
        ensures
            id < self@.collections.len() ==> r == Some(self@.collections[id as int].address),
            id >= self@.collections.len() ==> r is None,
    {
        if (id as usize) < self.collections.len() {
            Some(self.collections[id as usize].address.clone())
        } else {
            None
        }
    }

    /// What was recorded of the collection with the number, if there is
    /// one.
    pub fn get_collection_info(&self, id: u32) -> (r: Option<CollectionInfo>)
        ensures
            id < self@.collections.len() ==> r == Some(self@.collections[id as int]),
            id >= self@.collections.len() ==> r is None,
    {
        if (id as usize) < self.collections.len() {
            Some(self.collections[id as usize].clone())
        } else {
            None
        }
    }

    /// Hands the administration over to `new_admin`.
    pub fn set_admin(&mut self, new_admin: Address)
        ensures
            final(self)@ == (FactoryView { admin: new_admin, ..old(self)@ }),
    {
        self.admin = new_admin;
    }
}


impl CollectionFactory {
    /// The factory with the given records, as they were read from the
    /// ledger, or nothing where the collections cannot be counted in a
    /// `u32`.
    pub fn restore(admin: Address, collections: Vec<CollectionInfo>) -> (r: Option<Self>)
        ensures
            r is Some <==> collections@.len() <= u32::MAX,
            r is Some ==> r->0@ == (FactoryView { admin, collections: collections@ }),
    {
        if collections.len() > u32::MAX as usize {
            return None;
        }
        Some(CollectionFactory { admin, collections })
    }

    /// The collections, each under the number of its place.
    pub fn collections(&self) -> (r: &Vec<CollectionInfo>)
        ensures
            r@ == self@.collections,
    {
        &self.collections
    }
}

} // verus!
