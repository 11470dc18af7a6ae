//! The order in which the host attempts the transfers that an operation
//! names, and what the attempts come to.
//!
//! The host performs one transfer at a time and hands back what became of
//! each. Which transfer is attempted next, and which are given up after a
//! failure, is decided here.

use crate::marketplace_settlement::error::SettlementError;
use vstd::prelude::*;

verus! {

/// What became of the transfer at the place `k`: its outcome where it was
/// attempted, `InvalidState` where it was not.
pub open spec fn outcome_at(outcomes: Seq<Result<(), SettlementError>>, k: int) -> Result<
    (),
    SettlementError,
> {
    if 0 <= k < outcomes.len() {
        outcomes[k]
    } else {
        Err(SettlementError::InvalidState)
    }
}

/// What `n` transfers from the place `from` on come to together: the first
/// failure among them, where a transfer that was not attempted counts as
/// failed; success where all went through.
pub open spec fn first_failure(outcomes: Seq<Result<(), SettlementError>>, from: int, n: int) -> Result<
    (),
    SettlementError,
>
    decreases n,
{
    if n <= 0 {
        Ok(())
    } else {
        match outcome_at(outcomes, from) {
            Err(e) => Err(e),
            Ok(_) => first_failure(outcomes, from + 1, n - 1),
        }
    }
}

/// Whether one of the first `lead` transfers was attempted and failed.
pub open spec fn failed_before(outcomes: Seq<Result<(), SettlementError>>, lead: int) -> bool {
    exists|j: int| 0 <= j < outcomes.len() && j < lead && (#[trigger] outcomes[j]) is Err
}

/// The place of the transfer to attempt next among `count` transfers of
/// which the first failure stops the rest: the next in order, or none
/// where all were attempted or one has failed.
pub open spec fn next_of_all(count: int, outcomes: Seq<Result<(), SettlementError>>) -> Option<
    int,
> {
    if outcomes.len() >= count || failed_before(outcomes, count) {
        None
    } else {
        Some(outcomes.len() as int)
    }
}

/// What became of the transfer at the place `a + b + c`.
pub fn outcome_of(outcomes: &Vec<Result<(), SettlementError>>, a: usize, b: usize, c: usize) -> (r:
    Result<(), SettlementError>)
    ensures
        r == outcome_at(outcomes@, a + b + c),
{
    let n: usize = outcomes.len();
    let ab: usize = match a.checked_add(b) {
        Some(v) => v,
        None => {
            return Err(SettlementError::InvalidState);
        },
    };
    let k: usize = match ab.checked_add(c) {
        Some(v) => v,
        None => {
            return Err(SettlementError::InvalidState);
        },
    };
    if k < n {
        outcomes[k]
    } else {
        Err(SettlementError::InvalidState)
    }
}

/// What `n` transfers from the place `from` on come to together.
pub fn result_of(outcomes: &Vec<Result<(), SettlementError>>, from: usize, n: usize) -> (r: Result<
    (),
    SettlementError,
>)
    ensures
        r == first_failure(outcomes@, from as int, n as int),
{
    let mut i: usize = 0;
    while i < n
        invariant
            i <= n,
            first_failure(outcomes@, from as int, n as int) == first_failure(
                outcomes@,
                from + i,
                n - i,
            ),
        decreases n - i,
    {
        match outcome_of(outcomes, from, i, 0) {
            Err(e) => {
                return Err(e);
            },
            Ok(_) => {},
        }
        i += 1;
    }
    Ok(())
}

/// The place of the transfer to attempt next among `count` transfers of
/// which the first failure stops the rest.
pub fn next_in_order(count: usize, outcomes: &Vec<Result<(), SettlementError>>) -> (r: Option<
    usize,
>)
    ensures
        next_of_all(count as int, outcomes@) is None ==> r is None,
        next_of_all(count as int, outcomes@) is Some ==> r == Some(outcomes@.len() as usize),
{
    let mut j: usize = 0;
    while j < outcomes.len() && j < count
        invariant
            j <= outcomes.len(),
            forall|i: int| 0 <= i < j ==> (#[trigger] outcomes@[i]) is Ok,
        decreases outcomes.len() - j,
    {
        match outcomes[j] {
            Err(_) => {
                return None;
            },
            Ok(_) => {},
        }
        j += 1;
    }
    if outcomes.len() >= count {
        None
    } else {
        Some(outcomes.len())
    }
}

/// What the attempts at `count` transfers of which the first failure stops
/// the rest come to together: the first failure, or success where all went
/// through.
pub fn result_in_order(count: usize, outcomes: &Vec<Result<(), SettlementError>>) -> (r: Result<
    (),
    SettlementError,
>)
    ensures
        r == first_failure(outcomes@, 0, count as int),
{
    result_of(outcomes, 0, count)
}

} // verus!
