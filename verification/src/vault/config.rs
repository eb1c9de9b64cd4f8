//! Typed accessors for the configuration addresses the vault needs, each
//! mapping a missing address to its own error.
use vstd::prelude::*;

use crate::common::AccountId;
use crate::vault::errors::VaultError;
use crate::vault::storage::VaultState;

verus! {

/// The administrator, or `NotInitialized`.
pub fn require_admin(state: &VaultState) -> (r: Result<AccountId, VaultError>)
    ensures
        r == (match state.admin {
            Some(a) => Ok::<AccountId, VaultError>(a),
            None => Err(VaultError::NotInitialized),
        }),
{
    match state.get_admin() {
        Some(a) => Ok(a),
        None => Err(VaultError::NotInitialized),
    }
}

/// The oracle, or `OracleNotConfigured`.
pub fn require_oracle(state: &VaultState) -> (r: Result<AccountId, VaultError>)
    ensures
        r == (match state.oracle {
            Some(a) => Ok::<AccountId, VaultError>(a),
            None => Err(VaultError::OracleNotConfigured),
        }),
{
    match state.get_oracle() {
        Some(a) => Ok(a),
        None => Err(VaultError::OracleNotConfigured),
    }
}

/// The liquidation engine, or `LiquidationEngineNotSet`.
pub fn require_liquidation_engine(state: &VaultState) -> (r: Result<AccountId, VaultError>)
    ensures
        r == (match state.liquidation_engine {
            Some(a) => Ok::<AccountId, VaultError>(a),
            None => Err(VaultError::LiquidationEngineNotSet),
        }),
{
    match state.get_liquidation_engine() {
        Some(a) => Ok(a),
        None => Err(VaultError::LiquidationEngineNotSet),
    }
}

/// The lending pool recorded under its alternative key, or `PoolNotSet`.
pub fn require_pool(state: &VaultState) -> (r: Result<AccountId, VaultError>)
    ensures
        r == (match state.pool {
            Some(a) => Ok::<AccountId, VaultError>(a),
            None => Err(VaultError::PoolNotSet),
        }),
{
    match state.get_pool() {
        Some(a) => Ok(a),
        None => Err(VaultError::PoolNotSet),
    }
}

} // verus!
