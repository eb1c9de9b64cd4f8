//! Errors returned by the liquidation engine.
use vstd::prelude::*;

verus! {

/// Every way a liquidation-engine operation can fail.
#[derive(Debug, Clone, Copy, PartialEq, Eq, Structural)]
pub enum EngineError {
    AlreadyInitialized,
    NotInitialized,
    Unauthorized,
    AlreadyAdmin,
    InvalidAddress,
    InvalidAmount,
    NotLiquidatable,
    NoPosition,
    Overflow,
    NotImplemented,
}

} // verus!
