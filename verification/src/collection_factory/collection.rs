//! A collection of non-fungible tokens: who owns which token, who may mint,
//! and what royalty the collection asks for.
//!
//! Whether a caller is who it says it is, is for the host to establish
//! before an operation is called on behalf of that caller.

use crate::collection_factory::error::ContractError;
use crate::collection_factory::events::{Burn, Mint, Transfer};
use crate::collection_factory::types::{CollectionConfig, RoyaltyInfo, TokenMetadata};
use crate::host::same_address;
use soroban_sdk::Address;
use vstd::prelude::*;

verus! {

/// The largest royalty that a collection can ask for: the whole price.
pub const MAX_COLLECTION_ROYALTY: u32 = 10000;

/// A token of the collection: what was recorded when it was minted, and its
/// owner.
#[derive(Debug)]
pub struct TokenRecord {
    pub metadata: TokenMetadata,
    pub owner: Address,
}

/// The collection as contracts speak of it.
pub ghost struct CollectionView {
    /// The address of the collection itself.
    pub address: Address,
    pub admin: Address,
    pub config: CollectionConfig,
    pub total_supply: u32,
    pub paused: bool,
    pub royalty_info: RoyaltyInfo,
    /// Who may mint.
    pub minters: Seq<Address>,
    /// The tokens that exist, in the order in which they were minted.
    pub tokens: Seq<TokenRecord>,
}

/// Whether a token with the number exists.
pub open spec fn has_token(tokens: Seq<TokenRecord>, token_id: u32) -> bool {
    exists|i: int| 0 <= i < tokens.len() && (#[trigger] tokens[i]).metadata.token_id == token_id
}

/// Whether `i` is the place of the first token with the number.
pub open spec fn first_token_at(tokens: Seq<TokenRecord>, token_id: u32, i: int) -> bool {
    &&& 0 <= i < tokens.len()
    &&& tokens[i].metadata.token_id == token_id
    &&& forall|j: int| 0 <= j < i ==> (#[trigger] tokens[j]).metadata.token_id != token_id
}

/// The place of the token with the number.
pub open spec fn token_index(tokens: Seq<TokenRecord>, token_id: u32) -> int {
    choose|i: int| first_token_at(tokens, token_id, i)
}

/// The token with the number.
pub open spec fn token_of(tokens: Seq<TokenRecord>, token_id: u32) -> TokenRecord {
    tokens[token_index(tokens, token_id)]
}

/// The first token with a number is the one that `token_index` names.
pub proof fn first_token_is_indexed(tokens: Seq<TokenRecord>, token_id: u32, i: int)
    requires
        first_token_at(tokens, token_id, i),
    ensures
        token_index(tokens, token_id) == i,
        has_token(tokens, token_id),
{
    let k = token_index(tokens, token_id);
    assert(first_token_at(tokens, token_id, k));
    if k < i {
        assert(tokens[k].metadata.token_id != token_id);
    }
    if i < k {
        assert(tokens[i].metadata.token_id != token_id);
    }
}

/// How many tokens with the number `owner` holds: one where it owns the
/// token, none else.
pub open spec fn balance(tokens: Seq<TokenRecord>, owner: Address, token_id: u32) -> u32 {
    if has_token(tokens, token_id) && token_of(tokens, token_id).owner == owner {
        1
    } else {
        0
    }
}

/// Whether the collection is well formed: no token number and no minter
/// occurs twice, and the supply is the number of tokens.
pub open spec fn well_formed(c: CollectionView) -> bool {
    &&& c.total_supply == c.tokens.len()
    &&& forall|i: int, j: int|
        0 <= i < j < c.tokens.len() ==> (#[trigger] c.tokens[i]).metadata.token_id != (
        #[trigger] c.tokens[j]).metadata.token_id
    &&& forall|i: int, j: int| 0 <= i < j < c.minters.len() ==> c.minters[i] != c.minters[j]
}

/// What minting comes to: the administrator must be a minter (`NotMinter`),
/// the number must be free (`TokenAlreadyExists`), and the supply must be
/// below its limit and below the largest number that can be counted
/// (`SupplyLimitExceeded`).
pub open spec fn mint_outcome(c: CollectionView, token_id: u32) -> Result<(), ContractError> {
    if !c.minters.contains(c.admin) {
        Err(ContractError::NotMinter)
    } else if has_token(c.tokens, token_id) {
        Err(ContractError::TokenAlreadyExists)
    } else if c.config.max_supply is Some && c.total_supply >= c.config.max_supply->0 {
        Err(ContractError::SupplyLimitExceeded)
    } else if c.total_supply == u32::MAX {
        Err(ContractError::SupplyLimitExceeded)
    } else {
        Ok(())
    }
}

/// What a transfer comes to: the collection must not be paused
/// (`ContractPaused`), the token must exist (`NotFound`), and `from` must
/// own it (`NotAuthorized`).
pub open spec fn transfer_outcome(c: CollectionView, from: Address, token_id: u32) -> Result<
    (),
    ContractError,
> {
    if c.paused {
        Err(ContractError::ContractPaused)
    } else if !has_token(c.tokens, token_id) {
        Err(ContractError::NotFound)
    } else if token_of(c.tokens, token_id).owner != from {
        Err(ContractError::NotAuthorized)
    } else {
        Ok(())
    }
}

/// What burning comes to: the token must exist (`NotFound`), and `from` must
/// own it (`NotAuthorized`).
pub open spec fn burn_outcome(c: CollectionView, from: Address, token_id: u32) -> Result<
    (),
    ContractError,
> {
    if !has_token(c.tokens, token_id) {
        Err(ContractError::NotFound)
    } else if token_of(c.tokens, token_id).owner != from {
        Err(ContractError::NotAuthorized)
    } else {
        Ok(())
    }
}

/// Whether `i` is the first place at which `who` stands among the minters.
pub open spec fn first_minter_at(minters: Seq<Address>, who: Address, i: int) -> bool {
    &&& 0 <= i < minters.len()
    &&& minters[i] == who
    &&& forall|j: int| 0 <= j < i ==> minters[j] != who
}

/// The minters after `who` was given or denied the right to mint.
pub open spec fn with_minter(minters: Seq<Address>, who: Address, is_minter: bool) -> Seq<Address> {
    if is_minter {
        if minters.contains(who) {
            minters
        } else {
            minters.push(who)
        }
    } else {
        if minters.contains(who) {
            minters.remove(choose|i: int| first_minter_at(minters, who, i))
        } else {
            minters
        }
    }
}

/// Among minters of whom none occurs twice, one who was denied the right to
/// mint is a minter no more, one who was given it is one, and nobody else is
/// touched.
pub proof fn minter_is_set(minters: Seq<Address>, who: Address, is_minter: bool, other: Address)
    requires
        forall|i: int, j: int| 0 <= i < j < minters.len() ==> minters[i] != minters[j],
    ensures
        with_minter(minters, who, is_minter).contains(who) == is_minter,
        other != who ==> with_minter(minters, who, is_minter).contains(other) == minters.contains(
            other,
        ),
        forall|i: int, j: int|
            0 <= i < j < with_minter(minters, who, is_minter).len() ==> with_minter(
                minters,
                who,
                is_minter,
            )[i] != with_minter(minters, who, is_minter)[j],
{
    let after = with_minter(minters, who, is_minter);
    if is_minter {
        if !minters.contains(who) {
            assert(after[minters.len() as int] == who);
            assert forall|i: int, j: int| 0 <= i < j < after.len() implies after[i] != after[j] by {
                if j == minters.len() {
                    assert(minters.contains(minters[i]));
                }
            }
            if other != who {
                if minters.contains(other) {
                    let k = choose|k: int| 0 <= k < minters.len() && minters[k] == other;
                    assert(after[k] == other);
                }
                if after.contains(other) {
                    let k = choose|k: int| 0 <= k < after.len() && after[k] == other;
                    assert(minters[k] == other);
                }
            }
        }
    } else {
        if minters.contains(who) {
            let w = choose|k: int| 0 <= k < minters.len() && minters[k] == who;
            lemma_first_minter_below(minters, who, w);
            let i = choose|i: int| first_minter_at(minters, who, i);
            assert(first_minter_at(minters, who, i));
            assert forall|k: int| 0 <= k < after.len() implies after[k] != who by {
                if k < i {
                    assert(after[k] == minters[k]);
                } else {
                    assert(after[k] == minters[k + 1]);
                }
            }
            assert forall|a: int, b: int| 0 <= a < b < after.len() implies after[a] != after[b] by {
                let a0 = if a < i {
                    a
                } else {
                    a + 1
                };
                let b0 = if b < i {
                    b
                } else {
                    b + 1
                };
                assert(after[a] == minters[a0]);
                assert(after[b] == minters[b0]);
            }
            if other != who {
                if minters.contains(other) {
                    let k = choose|k: int| 0 <= k < minters.len() && minters[k] == other;
                    if k < i {
                        assert(after[k] == other);
                    } else {
                        assert(after[k - 1] == minters[k]);
                    }
                }
                if after.contains(other) {
                    let k = choose|k: int| 0 <= k < after.len() && after[k] == other;
                    if k < i {
                        assert(minters[k] == other);
                    } else {
                        assert(minters[k + 1] == other);
                    }
                }
            }
        }
    }
}

/// Below a place of `who` among the minters there is a first one.
proof fn lemma_first_minter_below(minters: Seq<Address>, who: Address, n: int)
    requires
        0 <= n < minters.len(),
        minters[n] == who,
    ensures
        exists|i: int| first_minter_at(minters, who, i),
    decreases n,
{
    if exists|j: int| 0 <= j < n && minters[j] == who {
        let j = choose|j: int| 0 <= j < n && minters[j] == who;
        lemma_first_minter_below(minters, who, j);
    } else {
        assert(first_minter_at(minters, who, n));
    }
}

/// A collection of non-fungible tokens.
pub struct NftCollection {
    address: Address,
    admin: Address,
    config: CollectionConfig,
    total_supply: u32,
    paused: bool,
    royalty_info: RoyaltyInfo,
    minters: Vec<Address>,
    tokens: Vec<TokenRecord>,
}

impl View for NftCollection {
    type V = CollectionView;

    closed spec fn view(&self) -> CollectionView {
        CollectionView {
            address: self.address,
            admin: self.admin,
            config: self.config,
            total_supply: self.total_supply,
            paused: self.paused,
            royalty_info: self.royalty_info,
            minters: self.minters@,
            tokens: self.tokens@,
        }
    }
}

impl NftCollection {
    /// Sets up the collection that lives at `address`: no tokens, not
    /// paused, the royalty of the configuration, and the administrator as
    /// the only minter.
    pub fn init(address: Address, admin: Address, config: CollectionConfig) -> (r: Self)
        ensures
            well_formed(r@),
            r@ == (CollectionView {
                address,
                admin,
                config,
                total_supply: 0,
                paused: false,
                royalty_info: RoyaltyInfo {
                    recipient: config.royalty_recipient,
                    percentage: config.royalty_percentage,
                },
                minters: seq![admin],
                tokens: Seq::empty(),
            }),
    {
        let royalty_info = RoyaltyInfo {
            recipient: config.royalty_recipient.clone(),
            percentage: config.royalty_percentage,
        };
        let mut minters: Vec<Address> = Vec::new();
        minters.push(admin.clone());
        let r = NftCollection {
            address,
            admin,
            config,
            total_supply: 0,
            paused: false,
            royalty_info,
            minters,
            tokens: Vec::new(),
        };
        assert(r@.minters =~= seq![admin]);
        assert(r@.tokens =~= Seq::empty());
        r
    }

    /// The address of the collection itself.
    pub fn address(&self) -> (r: &Address)
        ensures
            *r == self@.address,
    {
        &self.address
    }

    /// The administrator.
    pub fn admin(&self) -> (r: &Address)
        ensures
            *r == self@.admin,
    {
        &self.admin
    }

    /// The configuration.
    pub fn config(&self) -> (r: &CollectionConfig)
        ensures
            *r == self@.config,
    {
        &self.config
    }

    /// Whether transfers are halted.
    pub fn is_paused(&self) -> (r: bool)
        ensures
            r == self@.paused,
    {
        self.paused
    }

    /// The tokens that exist, in the order in which they were minted.
    pub fn tokens(&self) -> (r: &Vec<TokenRecord>)
        ensures
            r@ == self@.tokens,
    {
        &self.tokens
    }

    /// Who may mint.
    pub fn minters(&self) -> (r: &Vec<Address>)
        ensures
            r@ == self@.minters,
    {
        &self.minters
    }

    /// The place of the token with the number, if it exists.
    fn find(&self, token_id: u32) -> (r: Option<usize>)
        ensures
            r is Some <==> has_token(self@.tokens, token_id),
            r is Some ==> r->0 < self@.tokens.len() && token_index(self@.tokens, token_id)
                == r->0 as int,
    {
        let mut i: usize = 0;
        while i < self.tokens.len()
            invariant
                i <= self.tokens.len(),
                forall|j: int|
                    0 <= j < i ==> (#[trigger] self@.tokens[j]).metadata.token_id != token_id,
            decreases self.tokens.len() - i,
        {
            if self.tokens[i].metadata.token_id == token_id {
                proof {
                    first_token_is_indexed(self@.tokens, token_id, i as int);
                }
                return Some(i);
            }
            i += 1;
        }
        None
    }

    /// The place of `who` among the minters, if it is one.
    fn find_minter(&self, who: &Address) -> (r: Option<usize>)
        ensures
            r is Some <==> self@.minters.contains(*who),
            r is Some ==> first_minter_at(self@.minters, *who, r->0 as int),
    {
        let mut i: usize = 0;
        while i < self.minters.len()
            invariant
                i <= self.minters.len(),
                forall|j: int| 0 <= j < i ==> self@.minters[j] != *who,
            decreases self.minters.len() - i,
        {
            if same_address(&self.minters[i], who) {
                assert(self@.minters[i as int] == *who);
                return Some(i);
            }
            i += 1;
        }
        None
    }

    /// Whether `address` may mint.
    pub fn is_minter(&self, address: &Address) -> (r: bool)
        ensures
            r == self@.minters.contains(*address),
    {
        self.find_minter(address).is_some()
    }

    /// Mints the token `token_id` to `to` at `now`, with the administrator
    /// as its creator. See `mint_outcome` for the failures, on which nothing
    /// changes. On success the record of the mint is returned for the host
    /// to publish.
    pub fn mint(
        &mut self,
        to: Address,
        token_id: u32,
        uri: soroban_sdk::String,
        attributes: soroban_sdk::Vec<(soroban_sdk::String, soroban_sdk::String)>,
        now: u64,
    ) -> (r: Result<Mint, ContractError>)
        requires
            well_formed(old(self)@),
        ensures
            well_formed(final(self)@),
            mint_outcome(old(self)@, token_id) is Err ==> r is Err && r->Err_0 == mint_outcome(
                old(self)@,
                token_id,
            )->Err_0,
            mint_outcome(old(self)@, token_id) is Ok ==> r is Ok && r->Ok_0 == (Mint {
                collection: old(self)@.address,
                to,
                token_id,
                amount: 1,
            }),
            r is Err ==> final(self)@ == old(self)@,
            r is Ok ==> final(self)@ == (CollectionView {
                total_supply: (old(self)@.total_supply + 1) as u32,
                tokens: old(self)@.tokens.push(
                    TokenRecord {
                        metadata: TokenMetadata {
                            token_id,
                            uri,
                            attributes,
                            creator: old(self)@.admin,
                            created_at: now,
                        },
                        owner: to,
                    },
                ),
                ..old(self)@
            }),
    {
        if !self.is_minter(&self.admin) {
            return Err(ContractError::NotMinter);
        }
        if self.find(token_id).is_some() {
            return Err(ContractError::TokenAlreadyExists);
        }
        match self.config.max_supply {
            Some(max) => {
                if self.total_supply >= max {
                    return Err(ContractError::SupplyLimitExceeded);
                }
            },
            None => {},
        }
        if self.total_supply == u32::MAX {
            return Err(ContractError::SupplyLimitExceeded);
        }
        let record = TokenRecord {
            metadata: TokenMetadata {
                token_id,
                uri,
                attributes,
                creator: self.admin.clone(),
                created_at: now,
            },
            owner: to.clone(),
        };
        self.tokens.push(record);
        self.total_supply = self.total_supply + 1;
        proof {
            let before = old(self)@.tokens;
            let after = self@.tokens;
            assert forall|i: int, j: int| 0 <= i < j < after.len() implies (#[trigger] after[i])
                .metadata.token_id != (#[trigger] after[j]).metadata.token_id by {
                assert(after[i] == before[i]);
                if j < before.len() {
                    assert(after[j] == before[j]);
                }
            }
        }
        Ok(Mint { collection: self.address.clone(), to, token_id, amount: 1 })
    }

    /// Hands the token `token_id` from `from` to `to`. See
    /// `transfer_outcome` for the failures, on which nothing changes. On
    /// success the record of the transfer is returned for the host to
    /// publish.
    pub fn transfer(&mut self, from: &Address, to: Address, token_id: u32) -> (r: Result<
        Transfer,
        ContractError,
    >)
        requires
            well_formed(old(self)@),
        ensures
            well_formed(final(self)@),
            transfer_outcome(old(self)@, *from, token_id) is Err ==> r is Err && r->Err_0
                == transfer_outcome(old(self)@, *from, token_id)->Err_0,
            transfer_outcome(old(self)@, *from, token_id) is Ok ==> r is Ok && r->Ok_0 == (
            Transfer { collection: old(self)@.address, from: *from, to, token_id, amount: 1 }),
            r is Err ==> final(self)@ == old(self)@,
            r is Ok ==> final(self)@ == (CollectionView {
                tokens: old(self)@.tokens.update(
                    token_index(old(self)@.tokens, token_id),
                    TokenRecord { owner: to, ..token_of(old(self)@.tokens, token_id) },
                ),
                ..old(self)@
            }),
    {
        if self.paused {
            return Err(ContractError::ContractPaused);
        }
        let i: usize = match self.find(token_id) {
            Some(i) => i,
            None => {
                return Err(ContractError::NotFound);
            },
        };
        if !same_address(&self.tokens[i].owner, from) {
            return Err(ContractError::NotAuthorized);
        }
        let record = TokenRecord { metadata: self.tokens[i].metadata.clone(), owner: to.clone() };
        self.tokens.set(i, record);
        proof {
            let before = old(self)@.tokens;
            let after = self@.tokens;
            assert forall|a: int, b: int| 0 <= a < b < after.len() implies (#[trigger] after[a])
                .metadata.token_id != (#[trigger] after[b]).metadata.token_id by {
                assert(after[a].metadata.token_id == before[a].metadata.token_id);
                assert(after[b].metadata.token_id == before[b].metadata.token_id);
            }
        }
        Ok(Transfer { collection: self.address.clone(), from: from.clone(), to, token_id, amount: 1 })
    }

    /// Burns the token `token_id` of `from`. See `burn_outcome` for the
    /// failures, on which nothing changes. On success the token is gone,
    /// the supply is one less, and the record of the burn is returned for
    /// the host to publish.
    pub fn burn(&mut self, from: &Address, token_id: u32) -> (r: Result<Burn, ContractError>)
        requires
            well_formed(old(self)@),
        ensures
            well_formed(final(self)@),
            burn_outcome(old(self)@, *from, token_id) is Err ==> r is Err && r->Err_0
                == burn_outcome(old(self)@, *from, token_id)->Err_0,
            burn_outcome(old(self)@, *from, token_id) is Ok ==> r is Ok && r->Ok_0 == (Burn {
                collection: old(self)@.address,
                from: *from,
                token_id,
                amount: 1,
            }),
            r is Err ==> final(self)@ == old(self)@,
            r is Ok ==> final(self)@ == (CollectionView {
                total_supply: (old(self)@.total_supply - 1) as u32,
                tokens: old(self)@.tokens.remove(token_index(old(self)@.tokens, token_id)),
                ..old(self)@
            }),
    {
        let i: usize = match self.find(token_id) {
            Some(i) => i,
            None => {
                return Err(ContractError::NotFound);
            },
        };
        if !same_address(&self.tokens[i].owner, from) {
            return Err(ContractError::NotAuthorized);
        }
        self.tokens.remove(i);
        self.total_supply = self.total_supply - 1;
        proof {
            let before = old(self)@.tokens;
            let after = self@.tokens;
            assert forall|a: int, b: int| 0 <= a < b < after.len() implies (#[trigger] after[a])
                .metadata.token_id != (#[trigger] after[b]).metadata.token_id by {
                let a0 = if a < i {
                    a
                } else {
                    a + 1
                };
                let b0 = if b < i {
                    b
                } else {
                    b + 1
                };
                assert(after[a] == before[a0]);
                assert(after[b] == before[b0]);
            }
        }
        Ok(Burn { collection: self.address.clone(), from: from.clone(), token_id, amount: 1 })
    }

    /// Where the description of the token is found, if the token exists.
    pub fn get_token_uri(&self, token_id: u32) -> (r: Option<soroban_sdk::String>)
        ensures
            has_token(self@.tokens, token_id) ==> r == Some(
                token_of(self@.tokens, token_id).metadata.uri,
            ),
            !has_token(self@.tokens, token_id) ==> r is None,
    {
        match self.find(token_id) {
            Some(i) => Some(self.tokens[i].metadata.uri.clone()),
            None => None,
        }
    }

    /// What was recorded of the token when it was minted, if it exists.
    pub fn get_token_metadata(&self, token_id: u32) -> (r: Option<TokenMetadata>)
        ensures
            has_token(self@.tokens, token_id) ==> r == Some(
                token_of(self@.tokens, token_id).metadata,
            ),
            !has_token(self@.tokens, token_id) ==> r is None,
    {
        match self.find(token_id) {
            Some(i) => Some(self.tokens[i].metadata.clone()),
            None => None,
        }
    }

    /// How many tokens exist.
    pub fn total_supply(&self) -> (r: u32)
        ensures
            r == self@.total_supply,
    {
        self.total_supply
    }

    /// How many tokens with the number `owner` holds.
    pub fn balance_of(&self, owner: &Address, token_id: u32) -> (r: u32)
        ensures
            r == balance(self@.tokens, *owner, token_id),
    {
        match self.find(token_id) {
            Some(i) => {
                if same_address(&self.tokens[i].owner, owner) {
                    1
                } else {
                    0
                }
            },
            None => 0,
        }
    }

    /// The owner of the token, if it exists.
    pub fn owner_of(&self, token_id: u32) -> (r: Option<Address>)
        ensures
            has_token(self@.tokens, token_id) ==> r == Some(token_of(self@.tokens, token_id).owner),
            !has_token(self@.tokens, token_id) ==> r is None,
    {
        match self.find(token_id) {
            Some(i) => Some(self.tokens[i].owner.clone()),
            None => None,
        }
    }

    /// Sets who receives the royalty and how much, in basis points. Fails
    /// with `InvalidRoyalty` and changes nothing above ten thousand.
    pub fn set_royalty_info(&mut self, recipient: Address, percentage: u32) -> (r: Result<
        (),
        ContractError,
    >)
        ensures
            percentage > MAX_COLLECTION_ROYALTY ==> r == Err::<(), ContractError>(
                ContractError::InvalidRoyalty,
            ) && final(self)@ == old(self)@,
            percentage <= MAX_COLLECTION_ROYALTY ==> r == Ok::<(), ContractError>(()) && final(self)@ == (CollectionView {
                royalty_info: RoyaltyInfo { recipient, percentage },
                ..old(self)@
            }),
    {
        if percentage > MAX_COLLECTION_ROYALTY {
            return Err(ContractError::InvalidRoyalty);
        }
        self.royalty_info = RoyaltyInfo { recipient, percentage };
        Ok(())
    }

    /// Who receives the royalty, and how much.
    pub fn get_royalty_info(&self) -> (r: RoyaltyInfo)
        ensures
            r == self@.royalty_info,
    {
        self.royalty_info.clone()
    }

    /// Halts transfers, or lets them go on.
    pub fn set_pause(&mut self, paused: bool)
        ensures
            final(self)@ == (CollectionView { paused, ..old(self)@ }),
    {
        self.paused = paused;
    }

    /// Gives `minter` the right to mint, or takes it away.
    pub fn set_minter(&mut self, minter: Address, is_minter: bool)
        requires
            well_formed(old(self)@),
        ensures
            well_formed(final(self)@),
            final(self)@ == (CollectionView {
                minters: with_minter(old(self)@.minters, minter, is_minter),
                ..old(self)@
            }),
    {
        proof {
            minter_is_set(self@.minters, minter, is_minter, minter);
        }
        match self.find_minter(&minter) {
            Some(i) => {
                if !is_minter {
                    let ghost chosen = choose|k: int| first_minter_at(self@.minters, minter, k);
                    assert(first_minter_at(self@.minters, minter, i as int));
                    assert(chosen == i as int);
                    self.minters.remove(i);
                }
            },
            None => {
                if is_minter {
                    self.minters.push(minter);
                }
            },
        }
    }
}


/// Whether the token at `i` has another number than every token before it.
fn is_new_token(tokens: &Vec<TokenRecord>, i: usize) -> (r: bool)
    requires
        i < tokens@.len(),
    ensures
        r == (forall|j: int|
            0 <= j < i ==> (#[trigger] tokens@[j]).metadata.token_id
                != tokens@[i as int].metadata.token_id),
{
    let mut j: usize = 0;
    while j < i
        invariant
            j <= i,
            i < tokens@.len(),
            forall|k: int|
                0 <= k < j ==> (#[trigger] tokens@[k]).metadata.token_id
                    != tokens@[i as int].metadata.token_id,
        decreases i - j,
    {
        if tokens[j].metadata.token_id == tokens[i].metadata.token_id {
            return false;
        }
        j += 1;
    }
    true
}

/// Whether the minter at `i` is another than every minter before it.
fn is_new_minter(minters: &Vec<Address>, i: usize) -> (r: bool)
    requires
        i < minters@.len(),
    ensures
        r == (forall|j: int| 0 <= j < i ==> minters@[j] != minters@[i as int]),
{
    let mut j: usize = 0;
    while j < i
        invariant
            j <= i,
            i < minters@.len(),
            forall|k: int| 0 <= k < j ==> minters@[k] != minters@[i as int],
        decreases i - j,
    {
        if same_address(&minters[j], &minters[i]) {
            return false;
        }
        j += 1;
    }
    true
}

impl NftCollection {
    /// The collection with the given records, as they were read from the
    /// ledger, the supply being the number of the tokens; nothing where a
    /// token number or a minter occurs twice or the tokens cannot be
    /// counted in a `u32`.
    pub fn restore(
        address: Address,
        admin: Address,
        config: CollectionConfig,
        paused: bool,
        royalty_info: RoyaltyInfo,
        minters: Vec<Address>,
        tokens: Vec<TokenRecord>,
    ) -> (r: Option<Self>)
        ensures
            r is Some <==> tokens@.len() <= u32::MAX && well_formed(
                CollectionView {
                    address,
                    admin,
                    config,
                    total_supply: tokens@.len() as u32,
                    paused,
                    royalty_info,
                    minters: minters@,
                    tokens: tokens@,
                },
            ),
            r is Some ==> r->0@ == (CollectionView {
                address,
                admin,
                config,
                total_supply: tokens@.len() as u32,
                paused,
                royalty_info,
                minters: minters@,
                tokens: tokens@,
            }),
    {
        if tokens.len() > u32::MAX as usize {
            return None;
        }
        let mut i: usize = 0;
        while i < tokens.len()
            invariant
                i <= tokens.len(),
                forall|a: int, b: int|
                    0 <= a < b < i ==> (#[trigger] tokens@[a]).metadata.token_id != (
                    #[trigger] tokens@[b]).metadata.token_id,
            decreases tokens.len() - i,
        {
            if !is_new_token(&tokens, i) {
                return None;
            }
            i += 1;
        }
        let mut m: usize = 0;
        while m < minters.len()
            invariant
                m <= minters.len(),
                forall|a: int, b: int| 0 <= a < b < m ==> minters@[a] != minters@[b],
            decreases minters.len() - m,
        {
            if !is_new_minter(&minters, m) {
                proof {
                    let j = choose|j: int| 0 <= j < m && minters@[j] == minters@[m as int];
                    let c = CollectionView {
                        address,
                        admin,
                        config,
                        total_supply: tokens@.len() as u32,
                        paused,
                        royalty_info,
                        minters: minters@,
                        tokens: tokens@,
                    };
                    assert(c.minters[j] == c.minters[m as int]);
                    assert(!well_formed(c));
                }
                return None;
            }
            m += 1;
        }
        let total_supply: u32 = tokens.len() as u32;
        Some(
            NftCollection {
                address,
                admin,
                config,
                total_supply,
                paused,
                royalty_info,
                minters,
                tokens,
            },
        )
    }
}

} // verus!
