//! Initialisation, re-pointing and pausing of the pool.
use vstd::prelude::*;

use crate::common::AccountId;
use crate::pool::errors::PoolError;
use crate::pool::storage::PoolState;
use crate::pool::types::{pool_pause_bit, PauseFlag};

verus! {

/// The vault and the oracle, when both are recorded, are different
/// accounts.
pub open spec fn vault_oracle_distinct(s: PoolState) -> bool {
    s.vault is Some && s.oracle is Some ==> s.vault != s.oracle
}

/// Records the administrator, vault, oracle, borrow asset and interest rate
/// and clears the pause mask (the administrator authorises it).
///
/// Errors, leaving the state unchanged: `AlreadyInitialized` when an
/// administrator is recorded; `InvalidAddress` when the vault is the
/// oracle; `InvalidRate` for a zero rate.
pub fn initialize(
    state: &mut PoolState,
    admin: AccountId,
    vault: AccountId,
    oracle: AccountId,
    borrow_asset: AccountId,
    interest_rate_bps: u32,
) -> (r: Result<(), PoolError>)
    ensures
        r == (if old(state).admin is Some {
            Err(PoolError::AlreadyInitialized)
        } else if vault == oracle {
            Err(PoolError::InvalidAddress)
        } else if interest_rate_bps == 0 {
            Err(PoolError::InvalidRate)
        } else {
            Ok::<(), PoolError>(())
        }),
        r is Ok ==> *final(state) == (PoolState {
            admin: Some(admin),
            vault: Some(vault),
            oracle: Some(oracle),
            borrow_asset: Some(borrow_asset),
            interest_rate_bps,
            pause_mask: 0,
            ..*old(state)
        }),
        r is Ok ==> vault_oracle_distinct(*final(state)),
        r is Err ==> *final(state) == *old(state),
{
    if state.has_admin() {
        return Err(PoolError::AlreadyInitialized);
    }
    if vault == oracle {
        return Err(PoolError::InvalidAddress);
    }
    if interest_rate_bps == 0 {
        return Err(PoolError::InvalidRate);
    }
    state.admin = Some(admin);
    state.vault = Some(vault);
    state.oracle = Some(oracle);
    state.borrow_asset = Some(borrow_asset);
    state.interest_rate_bps = interest_rate_bps;
    state.pause_mask = 0;
    Ok(())
}

/// Hands administration to `new_admin` (the current administrator
/// authorises it).
///
/// Errors, leaving the state unchanged: `NotInitialized`; `AlreadyAdmin`
/// when `new_admin` already administers the pool.
pub fn set_admin(state: &mut PoolState, new_admin: AccountId) -> (r: Result<(), PoolError>)
    ensures
        r == (match old(state).admin {
            None => Err(PoolError::NotInitialized),
            Some(a) => if a == new_admin {
                Err(PoolError::AlreadyAdmin)
            } else {
                Ok::<(), PoolError>(())
            },
        }),
        r is Ok ==> *final(state) == (PoolState { admin: Some(new_admin), ..*old(state) }),
        r is Err ==> *final(state) == *old(state),
        vault_oracle_distinct(*old(state)) ==> vault_oracle_distinct(*final(state)),
{
    let current = match state.get_admin() {
        Some(a) => a,
        None => {
            return Err(PoolError::NotInitialized);
        },
    };
    if current == new_admin {
        return Err(PoolError::AlreadyAdmin);
    }
    state.admin = Some(new_admin);
    Ok(())
}

/// Points the pool at another vault (the administrator authorises it).
///
/// Errors, leaving the state unchanged: `NotInitialized`; `InvalidAddress`
/// when `vault` is the oracle.
pub fn set_vault(state: &mut PoolState, vault: AccountId) -> (r: Result<(), PoolError>)
    ensures
        r == (if old(state).admin is None {
            Err(PoolError::NotInitialized)
        } else if old(state).oracle == Some(vault) {
            Err(PoolError::InvalidAddress)
        } else {
            Ok::<(), PoolError>(())
        }),
        r is Ok ==> *final(state) == (PoolState { vault: Some(vault), ..*old(state) }),
        r is Err ==> *final(state) == *old(state),
        vault_oracle_distinct(*old(state)) ==> vault_oracle_distinct(*final(state)),
{
    if state.get_admin().is_none() {
        return Err(PoolError::NotInitialized);
    }
    match state.get_oracle() {
        Some(o) => {
            if o == vault {
                return Err(PoolError::InvalidAddress);
            }
        },
        None => {},
    }
    state.vault = Some(vault);
    Ok(())
}

/// Points the pool at another oracle (the administrator authorises it).
///
/// Errors, leaving the state unchanged: `NotInitialized`; `InvalidAddress`
/// when `oracle` is the vault.
pub fn set_oracle(state: &mut PoolState, oracle: AccountId) -> (r: Result<(), PoolError>)
    ensures
        r == (if old(state).admin is None {
            Err(PoolError::NotInitialized)
        } else if old(state).vault == Some(oracle) {
            Err(PoolError::InvalidAddress)
        } else {
            Ok::<(), PoolError>(())
        }),
        r is Ok ==> *final(state) == (PoolState { oracle: Some(oracle), ..*old(state) }),
        r is Err ==> *final(state) == *old(state),
        vault_oracle_distinct(*old(state)) ==> vault_oracle_distinct(*final(state)),
{
    if state.get_admin().is_none() {
        return Err(PoolError::NotInitialized);
    }
    match state.get_vault() {
        Some(v) => {
            if v == oracle {
                return Err(PoolError::InvalidAddress);
            }
        },
        None => {},
    }
    state.oracle = Some(oracle);
    Ok(())
}

/// Sets the operation's bit in the pause mask (the administrator
/// authorises it).
///
/// Errors, leaving the state unchanged: `NotInitialized`; `AlreadyPaused`
/// when the bit is already set.
pub fn pause_operation(state: &mut PoolState, operation: PauseFlag) -> (r: Result<(), PoolError>)
    ensures
        r == (if old(state).admin is None {
            Err(PoolError::NotInitialized)
        } else if old(state).pause_mask & pool_pause_bit(operation) != 0 {
            Err(PoolError::AlreadyPaused)
        } else {
            Ok::<(), PoolError>(())
        }),
        r is Ok ==> *final(state) == (PoolState { pause_mask: old(state).pause_mask | pool_pause_bit(operation), ..*old(state) }),
        r is Err ==> *final(state) == *old(state),
{
    if state.get_admin().is_none() {
        return Err(PoolError::NotInitialized);
    }
    if state.is_operation_paused(&operation) {
        return Err(PoolError::AlreadyPaused);
    }
    state.pause_mask = state.pause_mask | operation.bit();
    Ok(())
}

/// Clears the operation's bit in the pause mask (the administrator
/// authorises it).
///
/// Errors, leaving the state unchanged: `NotInitialized`; `NotPaused` when
/// the bit is not set.
pub fn unpause_operation(state: &mut PoolState, operation: PauseFlag) -> (r: Result<(), PoolError>)
    ensures
        r == (if old(state).admin is None {
            Err(PoolError::NotInitialized)
        } else if old(state).pause_mask & pool_pause_bit(operation) == 0 {
            Err(PoolError::NotPaused)
        } else {
            Ok::<(), PoolError>(())
        }),
        r is Ok ==> *final(state) == (PoolState { pause_mask: old(state).pause_mask & !pool_pause_bit(operation), ..*old(state) }),
        r is Err ==> *final(state) == *old(state),
{
    if state.get_admin().is_none() {
        return Err(PoolError::NotInitialized);
    }
    if !state.is_operation_paused(&operation) {
        return Err(PoolError::NotPaused);
    }
    state.pause_mask = state.pause_mask & !operation.bit();
    Ok(())
}

} // verus!
