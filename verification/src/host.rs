//! The values of the ledger host that run through the library: addresses,
//! symbols, byte strings and the ordered map of payouts.
//!
//! The host keeps these values; the library carries them, compares them and
//! reads the payout map. What is stated of the host here is taken on trust.
//!
//! All host values that come into one call belong to one environment of the
//! host: an address is a handle into its environment, and a map reads the
//! addresses it is given as handles of its own.

use soroban_sdk::{Address, Symbol};
use vstd::prelude::*;

verus! {

/// An account or a contract on the ledger, as `soroban_sdk::Address` holds it.
#[verifier::external_type_specification]
#[verifier::external_body]
pub struct ExAddress(soroban_sdk::Address);

/// A short name, as `soroban_sdk::Symbol` holds it.
#[verifier::external_type_specification]
#[verifier::external_body]
pub struct ExSymbol(soroban_sdk::Symbol);

/// A byte string of the host, as `soroban_sdk::Bytes` holds it.
#[verifier::external_type_specification]
#[verifier::external_body]
pub struct ExBytes(soroban_sdk::Bytes);

/// The host's ordered dictionary, `soroban_sdk::Map`.
#[verifier::external_type_specification]
#[verifier::external_body]
#[verifier::reject_recursive_types(K)]
#[verifier::reject_recursive_types(V)]
pub struct ExMap<K, V>(soroban_sdk::Map<K, V>);

/// A text of the host, as `soroban_sdk::String` holds it.
#[verifier::external_type_specification]
#[verifier::external_body]
pub struct ExString(soroban_sdk::String);

/// The host's list, `soroban_sdk::Vec`.
#[verifier::external_type_specification]
#[verifier::external_body]
#[verifier::reject_recursive_types(T)]
pub struct ExVec<T>(soroban_sdk::Vec<T>);

/// A map from recipients to amounts.
pub type Amounts = soroban_sdk::Map<Address, i128>;

/// The entries of a payout map in the order in which the host walks it (the
/// order of its keys), or `None` where some entry of the map is no pair of an
/// address and an amount.
pub uninterp spec fn map_entries(m: soroban_sdk::Map<Address, i128>) -> Option<Seq<(Address, i128)>>;

/// The text of a symbol: the characters that `Symbol::new` was given.
pub uninterp spec fn symbol_text(s: Symbol) -> Seq<char>;

/// `Address::clone`: the copy designates the same account or contract.
pub assume_specification[ <soroban_sdk::Address as Clone>::clone ](a: &soroban_sdk::Address) -> (r:
    soroban_sdk::Address)
    ensures
        r == *a,
;

/// `Symbol::clone`: the copy is the same name.
pub assume_specification[ <soroban_sdk::Symbol as Clone>::clone ](s: &soroban_sdk::Symbol) -> (r:
    soroban_sdk::Symbol)
    ensures
        r == *s,
;

/// `String::clone`: the copy is the same text.
pub assume_specification[ <soroban_sdk::String as Clone>::clone ](s: &soroban_sdk::String) -> (r:
    soroban_sdk::String)
    ensures
        r == *s,
;

/// `Vec::clone`: the copy is the same list.
pub assume_specification<T>[ <soroban_sdk::Vec<T> as Clone>::clone ](v: &soroban_sdk::Vec<T>) -> (r:
    soroban_sdk::Vec<T>)
    ensures
        r == *v,
;

/// `Map::clone`: the copy is the same map.
pub assume_specification<K: Clone, V: Clone>[ <soroban_sdk::Map<K, V> as Clone>::clone ](
    m: &soroban_sdk::Map<K, V>,
) -> (r: soroban_sdk::Map<K, V>)
    ensures
        r == *m,
;

/// `Address::eq`: two addresses compare equal exactly when they designate the
/// same account or contract, which is what equality of addresses means in the
/// contracts of this library.
#[verifier::external_body]
pub(crate) fn same_address(a: &Address, b: &Address) -> (r: bool)
    ensures
        r == (*a == *b),
{
    a == b
}

/// `Symbol::eq`: two symbols compare equal exactly when they are the same
/// name, that is, when they have the same text.
#[verifier::external_body]
pub(crate) fn same_symbol(a: &Symbol, b: &Symbol) -> (r: bool)
    ensures
        r == (*a == *b),
        r == (symbol_text(*a) == symbol_text(*b)),
{
    a == b
}

/// Whether a character can stand in a symbol: a letter, a digit or an
/// underscore.
pub open spec fn symbol_char(c: char) -> bool {
    ||| 'a' <= c <= 'z'
    ||| 'A' <= c <= 'Z'
    ||| '0' <= c <= '9'
    ||| c == '_'
}

/// Whether a text can be made a symbol: at most 32 characters, each of which
/// can stand in a symbol.
pub open spec fn symbol_like(text: Seq<char>) -> bool {
    text.len() <= 32 && forall|i: int| 0 <= i < text.len() ==> symbol_char(#[trigger] text[i])
}

/// `Symbol::new`, in the host environment of `owner`: the symbol with the
/// given text. The host panics on a text that cannot be made a symbol.
#[verifier::external_body]
pub(crate) fn new_symbol(owner: &Address, text: &str) -> (r: Symbol)
    requires
        symbol_like(text@),
    ensures
        symbol_text(r) == text@,
{
    Symbol::new(owner.env(), text)
}

/// Whether no recipient occurs twice among the entries.
pub open spec fn distinct_recipients(entries: Seq<(Address, i128)>) -> bool {
    forall|i: int, j: int| 0 <= i < j < entries.len() ==> entries[i].0 != entries[j].0
}

/// Whether `who` is a recipient among the entries.
pub open spec fn has_recipient(entries: Seq<(Address, i128)>, who: Address) -> bool {
    exists|i: int| 0 <= i < entries.len() && #[trigger] entries[i].0 == who
}

/// The amount that the entries give to `who`, if they name that recipient.
pub open spec fn amount_for(entries: Seq<(Address, i128)>, who: Address) -> Option<i128> {
    if has_recipient(entries, who) {
        Some(entries[choose|i: int| 0 <= i < entries.len() && #[trigger] entries[i].0 == who].1)
    } else {
        None
    }
}

/// `Map::new`, in the host environment of `owner`: a map without entries.
#[verifier::external_body]
pub(crate) fn empty_amounts(owner: &Address) -> (r: Amounts)
    ensures
        map_entries(r) == Some(Seq::<(Address, i128)>::empty()),
{
    soroban_sdk::Map::new(owner.env())
}

/// What `Map::set` leaves: `amount` for `recipient`, and for every other
/// recipient what the map gave before, no recipient twice.
pub open spec fn entries_after_put(
    before: Seq<(Address, i128)>,
    after: Seq<(Address, i128)>,
    recipient: Address,
    amount: i128,
) -> bool {
    &&& distinct_recipients(after)
    &&& forall|who: Address| #[trigger]
        amount_for(after, who) == if who == recipient {
            Some(amount)
        } else {
            amount_for(before, who)
        }
}

/// `Map::set`: afterwards the map gives `amount` to `recipient` and to every
/// other recipient what it gave before. Where the recipient is new, the host
/// places the entry by the order of its keys, of which nothing is said here.
#[verifier::external_body]
pub(crate) fn put_amount(m: &mut Amounts, recipient: Address, amount: i128)
    ensures
        map_entries(*old(m)) is Some ==> map_entries(*final(m)) is Some && entries_after_put(
            map_entries(*old(m))->0,
            map_entries(*final(m))->0,
            recipient,
            amount,
        ),
{
    m.set(recipient, amount)
}

/// `Map::try_get`: the amount stored for `recipient`, if there is an entry for
/// it. An entry whose value is no amount reads as absent.
#[verifier::external_body]
pub(crate) fn get_amount(m: &Amounts, recipient: &Address) -> (r: Option<i128>)
    ensures
        map_entries(*m) is Some ==> r == amount_for(map_entries(*m)->0, *recipient),
{
    m.try_get(recipient.clone()).unwrap_or(None)
}

/// `Map::try_iter`, collected: the entries in the order of the host, no
/// recipient twice, or `None` where an entry cannot be read as a pair of an
/// address and an amount.
#[verifier::external_body]
pub(crate) fn read_amounts(m: &Amounts) -> (r: Option<Vec<(Address, i128)>>)
    ensures
        r is Some <==> map_entries(*m) is Some,
        r is Some ==> r->0@ == map_entries(*m)->0 && distinct_recipients(r->0@),
{
    m.try_iter().collect::<Result<Vec<(Address, i128)>, _>>().ok()
}

} // verus!
