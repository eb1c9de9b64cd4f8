//! Verified core of a collateralised lending protocol: a collateral vault, a
//! lending pool and a liquidation engine, together with the fixed-point and
//! risk arithmetic they share.
//!
//! Each contract's persistent state is held as plain values (accounts are
//! identified by `AccountId`); the operations are functions from that state
//! and their inputs to the next state and a result. Token transfers,
//! authorisation checks, event publication and cross-contract reads are done
//! by the host around these functions.

pub mod common;
pub mod engine;
pub mod pool;
pub mod vault;
