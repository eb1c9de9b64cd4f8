//! Errors returned by the lending pool.
use vstd::prelude::*;

use crate::common::SharedError;

verus! {

/// Every way a lending-pool operation can fail.
#[derive(Debug, Clone, Copy, PartialEq, Eq, Structural)]
pub enum PoolError {
    AlreadyInitialized,
    NotInitialized,
    Unauthorized,
    AlreadyAdmin,
    InvalidAddress,
    InvalidRate,
    AlreadyPaused,
    NotPaused,
    InvalidAmount,
    InsufficientLiquidity,
    InsufficientSupply,
    PoolPaused,
    Overflow,
    UnsupportedAsset,
    ExceedsBorrowLimit,
    NoCollateral,
    BorrowPaused,
    NoDebt,
    BelowMinDebt,
    RepayPaused,
    NotImplemented,
}

/// The pool error a failure of the shared arithmetic becomes.
pub open spec fn pool_error_of(err: SharedError) -> PoolError {
    match err {
        SharedError::Overflow => PoolError::Overflow,
        SharedError::InvalidAmount => PoolError::InvalidAmount,
        SharedError::InvalidBps => PoolError::InvalidRate,
        SharedError::NotImplemented => PoolError::NotImplemented,
        SharedError::DivisionByZero => PoolError::Overflow,
    }
}

impl From<SharedError> for PoolError {
    fn from(err: SharedError) -> (r: PoolError) {
        match err {
            SharedError::Overflow => PoolError::Overflow,
            SharedError::InvalidAmount => PoolError::InvalidAmount,
            SharedError::InvalidBps => PoolError::InvalidRate,
            SharedError::NotImplemented => PoolError::NotImplemented,
            SharedError::DivisionByZero => PoolError::Overflow,
        }
    }
}

impl vstd::std_specs::convert::FromSpecImpl<SharedError> for PoolError {
    open spec fn obeys_from_spec() -> bool {
        true
    }

    open spec fn from_spec(err: SharedError) -> PoolError {
        pool_error_of(err)
    }
}

} // verus!
