use nftopia::marketplace_settlement::error::SettlementError;
use nftopia::marketplace_settlement::math_utils::{
    calculate_percentage, safe_add, safe_div, safe_mul, safe_sub, saturating_product,
};

#[test]
fn percentage_of_ten_thousand() {
    assert_eq!(calculate_percentage(10000, 500), 500);
    assert_eq!(calculate_percentage(10000, 9500), 9500);
    assert_eq!(calculate_percentage(10000, 0), 0);
    assert_eq!(calculate_percentage(10000, 10000), 10000);
}

#[test]
fn percentage_rounds_towards_zero() {
    assert_eq!(calculate_percentage(105, 500), 5);
    assert_eq!(calculate_percentage(199, 50), 0);
    assert_eq!(calculate_percentage(-105, 500), -5);
    assert_eq!(calculate_percentage(-199, 50), 0);
}

#[test]
fn percentage_saturates() {
    assert_eq!(calculate_percentage(i128::MAX, 10000), i128::MAX / 10000);
    assert_eq!(calculate_percentage(i128::MIN, 10000), i128::MIN / 10000);
    assert_eq!(calculate_percentage(i128::MAX, 1), i128::MAX / 10000);
}

#[test]
fn product_saturates_at_both_bounds() {
    assert_eq!(saturating_product(3, 4), 12);
    assert_eq!(saturating_product(i128::MAX, 2), i128::MAX);
    assert_eq!(saturating_product(i128::MAX, -2), i128::MIN);
    assert_eq!(saturating_product(i128::MIN, 2), i128::MIN);
    assert_eq!(saturating_product(i128::MIN, -1), i128::MAX);
}

#[test]
fn checked_sum_difference_and_product() {
    assert_eq!(safe_add(2, 3), Ok(5));
    assert_eq!(safe_add(i128::MAX, 1), Err(SettlementError::InvalidAmount));
    assert_eq!(safe_add(i128::MIN, -1), Err(SettlementError::InvalidAmount));
    assert_eq!(safe_sub(2, 3), Ok(-1));
    assert_eq!(safe_sub(i128::MIN, 1), Err(SettlementError::InvalidAmount));
    assert_eq!(safe_mul(-4, 5), Ok(-20));
    assert_eq!(safe_mul(i128::MAX, 2), Err(SettlementError::InvalidAmount));
}

#[test]
fn checked_quotient() {
    assert_eq!(safe_div(7, 2), Ok(3));
    assert_eq!(safe_div(-7, 2), Ok(-3));
    assert_eq!(safe_div(7, -2), Ok(-3));
    assert_eq!(safe_div(-7, -2), Ok(3));
    assert_eq!(safe_div(0, 5), Ok(0));
    assert_eq!(safe_div(1, 0), Err(SettlementError::InvalidAmount));
    assert_eq!(safe_div(i128::MIN, -1), Err(SettlementError::InvalidAmount));
}

