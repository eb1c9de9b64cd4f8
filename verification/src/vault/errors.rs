//! Errors returned by the collateral vault.
use vstd::prelude::*;

verus! {

/// Every way a vault operation can fail.
#[derive(Debug, Clone, Copy, PartialEq, Eq, Structural)]
pub enum VaultError {
    InvalidInputs,
    VaultPaused,
    UnsupportedAsset,
    AlreadySupported,
    AssetNotFound,
    NoPosition,
    StalePrice,
    Unauthorized,
    NotInitialized,
    BelowMinCollateralRatio,
    AlreadyAdmin,
    AlreadyPaused,
    NotPaused,
    AssetHasOpenPositions,
    RiskParamsNotSet,
    InvalidRiskParams,
    MathOverflow,
    MathUnderflow,
    MathDivisionByZero,
    MathPrecisionLoss,
    InvalidAmount,
    InsufficientCollateral,
    InvalidAssetConfig,
    NotImplemented,
    AlreadyInitialized,
    InvalidAddress,
    OracleNotConfigured,
    PriceNotFound,
    LiquidationEngineNotSet,
    PoolNotSet,
    ImmutableMetadata,
    MigrationAlreadyApplied,
    MigrationOutOfOrder,
    MigrationSkipped,
}

} // verus!
