//! Values the vault stores and hands out.
use vstd::prelude::*;

use crate::common::{AccountId, DEFAULT_LIQUIDATION_THRESHOLD_BPS, DEFAULT_MAX_LTV_BPS};

verus! {

/// One collateral asset held by a user and its balance in base units.
#[derive(Debug, Clone, Copy, PartialEq, Eq, Structural)]
pub struct CollateralAsset {
    pub asset: AccountId,
    pub amount: i128,
}

/// Token decimals assumed for an asset that has no explicit configuration.
pub const DEFAULT_TOKEN_DECIMALS: u32 = 7;

/// Oracle decimals assumed for an asset when it is first listed.
pub const DEFAULT_ORACLE_PRICE_DECIMALS: u32 = 7;

/// Risk configuration of a supported asset.
#[derive(Debug, Clone, Copy, PartialEq, Eq, Structural)]
pub struct AssetConfig {
    /// Decimals of the token's base units.
    pub token_decimals: u32,
    /// Decimals encoded in the oracle price.
    pub oracle_price_decimals: u32,
    /// Origination cap in bps: borrowing keeps debt at or below this LTV.
    pub max_ltv_bps: u32,
    /// Liquidation threshold in bps, strictly above `max_ltv_bps`.
    pub liquidation_threshold_bps: u32,
}

/// The configuration a newly listed asset starts with.
pub open spec fn default_asset_config() -> AssetConfig {
    AssetConfig {
        token_decimals: DEFAULT_TOKEN_DECIMALS,
        oracle_price_decimals: DEFAULT_ORACLE_PRICE_DECIMALS,
        max_ltv_bps: DEFAULT_MAX_LTV_BPS,
        liquidation_threshold_bps: DEFAULT_LIQUIDATION_THRESHOLD_BPS,
    }
}

impl AssetConfig {
    /// Seven token decimals, seven oracle decimals, the protocol's default
    /// max LTV and liquidation threshold.
    pub fn default() -> (c: Self)
        ensures
            c == default_asset_config(),
    {
        AssetConfig {
            token_decimals: DEFAULT_TOKEN_DECIMALS,
            oracle_price_decimals: DEFAULT_ORACLE_PRICE_DECIMALS,
            max_ltv_bps: DEFAULT_MAX_LTV_BPS,
            liquidation_threshold_bps: DEFAULT_LIQUIDATION_THRESHOLD_BPS,
        }
    }
}

/// A user's collateral across all assets.
#[derive(Debug, Clone, PartialEq, Eq)]
pub struct Position {
    /// The owner of the position.
    pub user: AccountId,
    /// Every asset with a positive balance, in the order the user's asset
    /// index holds them.
    pub collateral: Vec<CollateralAsset>,
}

/// An operation category that can be paused on its own.
#[derive(Debug, Clone, Copy, PartialEq, Eq, Structural)]
pub enum PauseFlag {
    Deposit,
    Borrow,
    Withdraw,
    Liquidation,
    Recovery,
}

/// The bit of a pause flag in the pause mask.
pub open spec fn pause_bit(flag: PauseFlag) -> u32 {
    match flag {
        PauseFlag::Deposit => 1,
        PauseFlag::Borrow => 2,
        PauseFlag::Withdraw => 4,
        PauseFlag::Liquidation => 8,
        PauseFlag::Recovery => 16,
    }
}

impl PauseFlag {
    /// The single bit of this flag in the pause mask: `1 << i` for the
    /// flag's position `i` in declaration order.
    pub fn bit(&self) -> (b: u32)
        ensures
            b == pause_bit(*self),
    {
        match self {
            PauseFlag::Deposit => 1,
            PauseFlag::Borrow => 2,
            PauseFlag::Withdraw => 4,
            PauseFlag::Liquidation => 8,
            PauseFlag::Recovery => 16,
        }
    }
}

/// Name of a pause flag as published in events.
pub fn pause_flag_symbol(flag: &PauseFlag) -> (s: &'static str)
    ensures
        s@ == (match *flag {
            PauseFlag::Deposit => "deposit"@,
            PauseFlag::Borrow => "borrow"@,
            PauseFlag::Withdraw => "withdraw"@,
            PauseFlag::Liquidation => "liquidation"@,
            PauseFlag::Recovery => "recovery"@,
        }),
{
    match flag {
        PauseFlag::Deposit => "deposit",
        PauseFlag::Borrow => "borrow",
        PauseFlag::Withdraw => "withdraw",
        PauseFlag::Liquidation => "liquidation",
        PauseFlag::Recovery => "recovery",
    }
}

/// A price reported by the oracle, with the time it refers to and the time it
/// was written.
#[derive(Debug, Clone, Copy, PartialEq, Eq, Structural)]
pub struct PriceData {
    pub price: i128,
    pub timestamp: u64,
    pub write_timestamp: u64,
}

} // verus!
