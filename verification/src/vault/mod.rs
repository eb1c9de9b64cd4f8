//! The collateral vault: deposits, withdrawals, seizures, asset listing and
//! the risk arithmetic that values a position.

pub mod admin;
pub mod assets;
pub mod config;
pub mod constants;
pub mod contract;
pub mod errors;
pub mod liquidation;
pub mod math;
pub mod position;
pub mod properties;
pub mod risk;
pub mod storage;
pub mod types;
pub mod upgrade;
pub mod views;
