//! Checked fixed-point helpers for financial calculations.
//!
//! Every helper returns a typed [`VaultError`] instead of panicking, and the
//! rounding direction of each one is stated in its contract.
use vstd::prelude::*;

use crate::common::{fits_i128, trunc_div};
use crate::vault::errors::VaultError;

verus! {

/// Checked addition; `MathOverflow` when `a + b` leaves the `i128` range.
/// Exact: addition never rounds.
pub fn checked_add(a: i128, b: i128) -> (r: Result<i128, VaultError>)
    ensures
        r == (if fits_i128(a + b) {
            Ok::<i128, VaultError>((a + b) as i128)
        } else {
            Err(VaultError::MathOverflow)
        }),
{
    match a.checked_add(b) {
        Some(v) => Ok(v),
        None => Err(VaultError::MathOverflow),
    }
}

/// Checked subtraction; `MathUnderflow` when a non-negative `a` would drop
/// below zero, or when `a - b` leaves the `i128` range. Exact: subtraction
/// never rounds.
pub fn checked_sub(a: i128, b: i128) -> (r: Result<i128, VaultError>)
    ensures
        r == (if fits_i128(a - b) && !(a >= 0 && a - b < 0) {
            Ok::<i128, VaultError>((a - b) as i128)
        } else {
            Err(VaultError::MathUnderflow)
        }),
{
    match a.checked_sub(b) {
        Some(v) => {
            if a >= 0 && v < 0 {
                Err(VaultError::MathUnderflow)
            } else {
                Ok(v)
            }
        },
        None => Err(VaultError::MathUnderflow),
    }
}

/// Checked multiplication; `MathOverflow` when `a * b` leaves the `i128`
/// range. Exact: multiplication never rounds.
pub fn checked_mul(a: i128, b: i128) -> (r: Result<i128, VaultError>)
    ensures
        r == (if fits_i128(a * b) {
            Ok::<i128, VaultError>((a * b) as i128)
        } else {
            Err(VaultError::MathOverflow)
        }),
{
    match a.checked_mul(b) {
        Some(v) => Ok(v),
        None => Err(VaultError::MathOverflow),
    }
}

/// Checked division, truncating toward zero (down for positive quotients).
/// `MathDivisionByZero` when `b == 0`; `MathOverflow` when the quotient does
/// not fit (`i128::MIN / -1`).
pub fn checked_div(a: i128, b: i128) -> (r: Result<i128, VaultError>)
    ensures
        r == (if b == 0 {
            Err(VaultError::MathDivisionByZero)
        } else if fits_i128(trunc_div(a as int, b as int)) {
            Ok::<i128, VaultError>(trunc_div(a as int, b as int) as i128)
        } else {
            Err(VaultError::MathOverflow)
        }),
{
    if b == 0 {
        return Err(VaultError::MathDivisionByZero);
    }
    match a.checked_div(b) {
        Some(v) => Ok(v),
        None => Err(VaultError::MathOverflow),
    }
}

/// What `checked_mul_div(a, b, denom)` returns.
pub open spec fn mul_div_result(a: int, b: int, denom: int) -> Result<i128, VaultError> {
    if denom == 0 {
        Err(VaultError::MathDivisionByZero)
    } else if !fits_i128(a * b) {
        Err(VaultError::MathOverflow)
    } else if !fits_i128(trunc_div(a * b, denom)) {
        Err(VaultError::MathOverflow)
    } else if trunc_div(a * b, denom) == 0 && a != 0 && b != 0 {
        Err(VaultError::MathPrecisionLoss)
    } else {
        Ok(trunc_div(a * b, denom) as i128)
    }
}

/// Checked multiply-divide `a * b / denom`, product first, truncating toward
/// zero (so positive values are rounded down, never overstated).
///
/// Errors, in this order: `MathDivisionByZero` when `denom == 0`;
/// `MathOverflow` when the product or the quotient leaves the `i128` range;
/// `MathPrecisionLoss` when both factors are non-zero but the result
/// truncates to zero.
pub fn checked_mul_div(a: i128, b: i128, denom: i128) -> (r: Result<i128, VaultError>)
    ensures
        r == mul_div_result(a as int, b as int, denom as int),
{
    if denom == 0 {
        return Err(VaultError::MathDivisionByZero);
    }
    let product = checked_mul(a, b)?;
    let result = match product.checked_div(denom) {
        Some(v) => v,
        None => {
            return Err(VaultError::MathOverflow);
        },
    };
    if result == 0 && a != 0 && b != 0 {
        return Err(VaultError::MathPrecisionLoss);
    }
    Ok(result)
}

} // verus!
