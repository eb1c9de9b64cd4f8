//! The lending pool: lenders supply the borrow asset, borrowers draw it
//! against their vault collateral and repay it with simple interest.

pub mod admin;
pub mod borrow;
pub mod contract;
pub mod debt;
pub mod errors;
pub mod liquidity;
pub mod properties;
pub mod repay;
pub mod storage;
pub mod types;
