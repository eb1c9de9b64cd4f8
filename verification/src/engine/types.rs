//! Values the liquidation engine takes and returns.
use vstd::prelude::*;

use crate::common::AccountId;

verus! {

/// Outcome of a liquidation: debt repaid, collateral value seized and the
/// bonus included in it.
#[derive(Debug, Clone, Copy, PartialEq, Eq, Structural)]
pub struct LiquidationResult {
    pub user: AccountId,
    pub repaid: i128,
    pub seized: i128,
    pub bonus: i128,
}

/// One collateral balance of a borrower with the liquidation threshold of
/// its asset.
#[derive(Debug, Clone, Copy, PartialEq, Eq, Structural)]
pub struct CollateralThreshold {
    pub amount: i128,
    pub liquidation_threshold_bps: u32,
}

/// One collateral balance of a borrower with what is needed to price it:
/// the oracle price and the decimals of the token and of the price.
#[derive(Debug, Clone, Copy, PartialEq, Eq, Structural)]
pub struct CollateralQuote {
    pub asset: AccountId,
    pub amount: i128,
    pub price: i128,
    pub token_decimals: u32,
    pub oracle_price_decimals: u32,
}

/// An amount of one collateral asset taken from the borrower and handed to
/// the liquidator.
#[derive(Debug, Clone, Copy, PartialEq, Eq, Structural)]
pub struct Seizure {
    pub asset: AccountId,
    pub amount: i128,
}

/// What a liquidation does: the result reported, the asset in which the
/// debt is repaid, and the collateral taken, in the order it is taken.
#[derive(Debug, Clone)]
pub struct LiquidationPlan {
    pub result: LiquidationResult,
    pub borrow_asset: AccountId,
    pub seizures: Vec<Seizure>,
}

} // verus!
