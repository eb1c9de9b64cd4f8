//! The liquidation engine: decides whether a borrower can be liquidated, how
//! much of the debt a liquidator may repay, the bonus, and which collateral
//! is seized to pay for it.

pub mod admin;
pub mod contract;
pub mod errors;
pub mod liquidate;
pub mod properties;
pub mod storage;
pub mod types;
