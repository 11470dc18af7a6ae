//! Fixed-point arithmetic over basis points, saturating or checked.

use crate::marketplace_settlement::error::SettlementError;
use vstd::prelude::*;

verus! {

/// The number of basis points in the whole.
pub const BASIS_POINTS: i128 = 10000;

/// Whether `v` can be held in an `i128`.
pub open spec fn fits_i128(v: int) -> bool {
    i128::MIN <= v <= i128::MAX
}

/// `v`, held to the range of `i128`.
pub open spec fn clamp_i128(v: int) -> int {
    if v > i128::MAX {
        i128::MAX as int
    } else if v < i128::MIN {
        i128::MIN as int
    } else {
        v
    }
}

/// The quotient of `a` by `b`, rounded towards zero.
pub open spec fn quotient(a: int, b: int) -> int
    recommends
        b != 0,
{
    if a >= 0 && b > 0 {
        a / b
    } else if a < 0 && b < 0 {
        (-a) / (-b)
    } else if a < 0 {
        -((-a) / b)
    } else {
        -(a / (-b))
    }
}

/// The share of `amount` that `bps` basis points make up: the product,
/// saturating at the bounds of `i128`, divided by ten thousand and rounded
/// towards zero.
pub open spec fn percentage_of(amount: int, bps: int) -> int {
    quotient(clamp_i128(amount * bps), 10000)
}

/// The product of `a` and `b`, saturating at the bounds of `i128`.
pub fn saturating_product(a: i128, b: i128) -> (r: i128)
    ensures
        r == clamp_i128(a * b),
{
    match a.checked_mul(b) {
        Some(p) => p,
        None => {
            if (a < 0) != (b < 0) {
                assert(a * b <= 0) by (nonlinear_arith)
                    requires
                        (a < 0) != (b < 0),
                ;
                i128::MIN
            } else {
                assert(a * b >= 0) by (nonlinear_arith)
                    requires
                        (a < 0) == (b < 0),
                ;
                i128::MAX
            }
        },
    }
}

/// The share of `amount` that `percentage_bps` basis points make up.
pub fn calculate_percentage(amount: i128, percentage_bps: u64) -> (r: i128)
    ensures
        r == percentage_of(amount as int, percentage_bps as int),
{
    let product: i128 = saturating_product(amount, percentage_bps as i128);
    match product.checked_div(BASIS_POINTS) {
        Some(q) => q,
        None => 0,
    }
}

/// The sum, or `InvalidAmount` where it leaves the range of `i128`.
pub fn safe_add(a: i128, b: i128) -> (r: Result<i128, SettlementError>)
    ensures
        fits_i128(a + b) ==> r == Ok::<i128, SettlementError>((a + b) as i128),
        !fits_i128(a + b) ==> r == Err::<i128, SettlementError>(SettlementError::InvalidAmount),
{
    match a.checked_add(b) {
        Some(s) => Ok(s),
        None => Err(SettlementError::InvalidAmount),
    }
}

/// The difference, or `InvalidAmount` where it leaves the range of `i128`.
pub fn safe_sub(a: i128, b: i128) -> (r: Result<i128, SettlementError>)
    ensures
        fits_i128(a - b) ==> r == Ok::<i128, SettlementError>((a - b) as i128),
        !fits_i128(a - b) ==> r == Err::<i128, SettlementError>(SettlementError::InvalidAmount),
{
    match a.checked_sub(b) {
        Some(s) => Ok(s),
        None => Err(SettlementError::InvalidAmount),
    }
}

/// The product, or `InvalidAmount` where it leaves the range of `i128`.
pub fn safe_mul(a: i128, b: i128) -> (r: Result<i128, SettlementError>)
    ensures
        fits_i128(a * b) ==> r == Ok::<i128, SettlementError>((a * b) as i128),
        !fits_i128(a * b) ==> r == Err::<i128, SettlementError>(SettlementError::InvalidAmount),
{
    match a.checked_mul(b) {
        Some(s) => Ok(s),
        None => Err(SettlementError::InvalidAmount),
    }
}

/// Whether the quotient of `a` by `b` exists and can be held in an `i128`.
pub open spec fn divisible(a: int, b: int) -> bool {
    b != 0 && fits_i128(quotient(a, b))
}

/// The quotient rounded towards zero, or `InvalidAmount` where the divisor is
/// zero or the quotient leaves the range of `i128`.
pub fn safe_div(a: i128, b: i128) -> (r: Result<i128, SettlementError>)
    ensures
        divisible(a as int, b as int) ==> r == Ok::<i128, SettlementError>(
            quotient(a as int, b as int) as i128,
        ),
        !divisible(a as int, b as int) ==> r == Err::<i128, SettlementError>(
            SettlementError::InvalidAmount,
        ),
{
    match a.checked_div(b) {
        Some(q) => Ok(q),
        None => Err(SettlementError::InvalidAmount),
    }
}

} // verus!
