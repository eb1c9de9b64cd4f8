//! Fixed-point and risk-bound constants of the vault.
use vstd::prelude::*;

verus! {

/// Denominator of every basis-point value: 10_000 bps = 100%.
pub const BPS_DENOMINATOR: i128 = 10_000;

/// Oracle prices carry seven decimals ($1.00 = 10_000_000); dividing
/// `amount * price` by this constant gives the quote value.
pub const PRICE_PRECISION: i128 = 10_000_000;

/// Smallest loan-to-value ratio an asset may be given (1%).
pub const MIN_LTV_BPS: i128 = 100;

/// Largest loan-to-value ratio an asset may be given (99%), strictly below
/// the largest liquidation threshold.
pub const MAX_LTV_BPS: i128 = 9_900;

/// Smallest liquidation threshold (1%).
pub const MIN_LIQ_THRESHOLD_BPS: i128 = 100;

/// Largest liquidation threshold (100%).
pub const MAX_LIQ_THRESHOLD_BPS: i128 = 10_000;

/// Smallest liquidation bonus (0%).
pub const MIN_LIQ_BONUS_BPS: i128 = 0;

/// Largest liquidation bonus (50%).
pub const MAX_LIQ_BONUS_BPS: i128 = 5_000;

/// Collateral must stay at or above this percentage of the debt after a
/// withdrawal (110%).
pub const MIN_COLLATERAL_RATIO_PERCENT: i128 = 110;

} // verus!
