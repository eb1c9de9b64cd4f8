use lending_protocol::vault::errors::VaultError;
use lending_protocol::vault::math::{checked_add, checked_div, checked_mul, checked_mul_div, checked_sub};

#[test]
fn test_checked_add_ok() {
    assert_eq!(checked_add(100, 200).unwrap(), 300);
}

#[test]
fn test_checked_add_overflow() {
    assert_eq!(checked_add(i128::MAX, 1), Err(VaultError::MathOverflow));
}

#[test]
fn test_checked_sub_ok() {
    assert_eq!(checked_sub(200, 100).unwrap(), 100);
}

#[test]
fn test_checked_sub_underflow() {
    assert_eq!(checked_sub(0, 1), Err(VaultError::MathUnderflow));
}

#[test]
fn test_checked_mul_ok() {
    assert_eq!(checked_mul(3, 7).unwrap(), 21);
}

#[test]
fn test_checked_mul_overflow() {
    assert_eq!(checked_mul(i128::MAX, 2), Err(VaultError::MathOverflow));
}

#[test]
fn test_checked_div_ok() {
    assert_eq!(checked_div(100, 3).unwrap(), 33);
}

#[test]
fn test_checked_div_by_zero() {
    assert_eq!(checked_div(1, 0), Err(VaultError::MathDivisionByZero));
}

#[test]
fn test_checked_mul_div_ok() {
    assert_eq!(checked_mul_div(500, 10_000_000, 10_000_000).unwrap(), 500);
}

#[test]
fn test_checked_mul_div_precision_loss() {
    assert_eq!(checked_mul_div(1, 1, 10_000_000), Err(VaultError::MathPrecisionLoss));
}

#[test]
fn test_checked_mul_div_division_by_zero() {
    assert_eq!(checked_mul_div(100, 200, 0), Err(VaultError::MathDivisionByZero));
}

#[test]
fn math_test_checked_mul_div_overflow() {
    assert_eq!(checked_mul_div(i128::MAX, 2, 1), Err(VaultError::MathOverflow));
}

#[test]
fn test_max_values_checked_add() {
    assert_eq!(checked_add(i128::MAX - 1, 1).unwrap(), i128::MAX);
    assert_eq!(checked_add(i128::MAX, 0).unwrap(), i128::MAX);
}

#[test]
fn test_max_values_checked_sub() {
    assert_eq!(checked_sub(i128::MIN + 1, 1).unwrap(), i128::MIN);
}

#[test]
fn test_max_values_checked_mul() {
    assert_eq!(checked_mul(i128::MAX, 1).unwrap(), i128::MAX);
    assert_eq!(checked_mul(i128::MAX, 0).unwrap(), 0);
}

#[test]
fn test_max_values_checked_div() {
    assert_eq!(checked_div(i128::MAX, 1).unwrap(), i128::MAX);
    assert_eq!(checked_div(i128::MAX, i128::MAX).unwrap(), 1);
}

#[test]
fn test_one_unit_rounding_boundaries() {
    let price_unit = 1_i128;
    let amount = 10_000_000 - 1;
    assert_eq!(checked_mul_div(amount, price_unit, 10_000_000), Err(VaultError::MathPrecisionLoss));
    assert_eq!(checked_mul_div(10_000_000, price_unit, 10_000_000).unwrap(), 1);
}

#[test]
fn test_checked_add_max_boundary() {
    assert_eq!(checked_add(i128::MAX - 1, 1).unwrap(), i128::MAX);
    assert_eq!(checked_add(i128::MAX, 0).unwrap(), i128::MAX);
    assert_eq!(checked_add(i128::MAX, 1), Err(VaultError::MathOverflow));
}

#[test]
fn test_checked_add_min_boundary() {
    assert_eq!(checked_add(i128::MIN, 0).unwrap(), i128::MIN);
    assert_eq!(checked_add(i128::MIN, 1).unwrap(), i128::MIN + 1);
}

#[test]
fn test_checked_sub_zero_boundary() {
    assert_eq!(checked_sub(0, 0).unwrap(), 0);
    assert_eq!(checked_sub(0, 1), Err(VaultError::MathUnderflow));
}

#[test]
fn test_checked_sub_max_boundary() {
    assert_eq!(checked_sub(i128::MAX, i128::MAX).unwrap(), 0);
    assert_eq!(checked_sub(i128::MAX, i128::MAX - 1).unwrap(), 1);
}

#[test]
fn test_checked_mul_max_boundary() {
    assert_eq!(checked_mul(i128::MAX, 1).unwrap(), i128::MAX);
    assert_eq!(checked_mul(i128::MAX, -1).unwrap(), -i128::MAX);
    assert_eq!(checked_mul(i128::MAX, 2), Err(VaultError::MathOverflow));
}

#[test]
fn test_checked_mul_zero() {
    assert_eq!(checked_mul(i128::MAX, 0).unwrap(), 0);
    assert_eq!(checked_mul(0, i128::MAX).unwrap(), 0);
}

#[test]
fn test_checked_div_max_boundary() {
    assert_eq!(checked_div(i128::MAX, 1).unwrap(), i128::MAX);
    assert_eq!(checked_div(i128::MAX, i128::MAX).unwrap(), 1);
    assert_eq!(checked_div(1, 0), Err(VaultError::MathDivisionByZero));
}

#[test]
fn test_checked_div_positive_rounds_down() {
    assert_eq!(checked_div(100, 3).unwrap(), 33);
}

#[test]
fn test_checked_mul_div_precision_loss_boundary() {
    assert_eq!(checked_mul_div(1, 1, 10_000_000), Err(VaultError::MathPrecisionLoss));
    assert_eq!(checked_mul_div(1, 9_999_999, 10_000_000), Err(VaultError::MathPrecisionLoss));
    assert_eq!(checked_mul_div(1, 10_000_000, 10_000_000).unwrap(), 1);
}

#[test]
fn test_checked_mul_div_by_zero() {
    assert_eq!(checked_mul_div(100, 200, 0), Err(VaultError::MathDivisionByZero));
}

#[test]
fn test_math_test_checked_mul_div_overflow() {
    assert_eq!(checked_mul_div(i128::MAX, 2, 1), Err(VaultError::MathOverflow));
}

#[test]
fn test_checked_mul_div_rounds_down_protocol_safe() {
    assert_eq!(checked_mul_div(9, 3, 5).unwrap(), 5);
}

#[test]
fn test_max_i128_product_without_overflow() {
    let half_max = i128::MAX / 2;
    assert_eq!(checked_mul(half_max, 2).unwrap(), i128::MAX - 1);
}

#[test]
fn test_max_i128_mul_div_stress() {
    let large_amount = i128::MAX / 10_000_000;
    let large_price = 10_000_000;
    let denom = 10_000_000;
    let result = checked_mul_div(large_amount, large_price, denom).unwrap();
    assert_eq!(result, large_amount);
}

#[test]
fn checked_div_min_by_minus_one_is_overflow() {
    assert_eq!(checked_div(i128::MIN, -1), Err(VaultError::MathOverflow));
}

#[test]
fn checked_mul_div_truncates_toward_zero_for_negatives() {
    assert_eq!(checked_mul_div(-7, 3, 2).unwrap(), -10);
}

#[test]
fn checked_sub_out_of_range_is_underflow() {
    assert_eq!(checked_sub(i128::MIN, 1), Err(VaultError::MathUnderflow));
    assert_eq!(checked_sub(-5, 10).unwrap(), -15);
}
