//! Administrative operations of the vault. Each one must be authorised by
//! the administrator recorded before the call; the host checks that
//! authorisation before applying the operation.
use vstd::prelude::*;

use crate::common::AccountId;
use crate::vault::errors::VaultError;
use crate::vault::storage::{mask_of, VaultState};
use crate::vault::types::{pause_bit, PauseFlag};

verus! {

/// The lending pool and the oracle, when both are recorded, are different
/// accounts.
pub open spec fn pool_oracle_distinct(s: VaultState) -> bool {
    s.lending_pool is Some && s.oracle is Some ==> s.lending_pool != s.oracle
}

/// Hands administration to `new_admin`.
///
/// Errors, leaving the state unchanged: `InvalidInputs` when no
/// administrator is recorded; `AlreadyAdmin` when `new_admin` already is it.
pub fn set_admin(state: &mut VaultState, new_admin: AccountId) -> (r: Result<(), VaultError>)
    ensures
        r == (match old(state).admin {
            None => Err(VaultError::InvalidInputs),
            Some(a) => if a == new_admin {
                Err(VaultError::AlreadyAdmin)
            } else {
                Ok::<(), VaultError>(())
            },
        }),
        r is Ok ==> *final(state) == (VaultState { admin: Some(new_admin), ..*old(state) }),
        r is Err ==> *final(state) == *old(state),
{
    let current_admin = match state.get_admin() {
        Some(a) => a,
        None => {
            return Err(VaultError::InvalidInputs);
        },
    };
    if current_admin == new_admin {
        return Err(VaultError::AlreadyAdmin);
    }
    state.set_admin(new_admin);
    Ok(())
}

/// Records the lending pool. `NotInitialized` without an administrator;
/// `InvalidAddress` when the address is the configured oracle.
pub fn set_lending_pool(state: &mut VaultState, lending_pool: AccountId) -> (r: Result<(), VaultError>)
    ensures
        r == (if old(state).admin is None {
            Err(VaultError::NotInitialized)
        } else if old(state).oracle == Some(lending_pool) {
            Err(VaultError::InvalidAddress)
        } else {
            Ok::<(), VaultError>(())
        }),
        r is Ok ==> *final(state) == (VaultState { lending_pool: Some(lending_pool), ..*old(state) }),
        r is Err ==> *final(state) == *old(state),
        pool_oracle_distinct(*old(state)) ==> pool_oracle_distinct(*final(state)),
{
    if state.get_admin().is_none() {
        return Err(VaultError::NotInitialized);
    }
    if let Some(oracle) = state.get_oracle() {
        if lending_pool == oracle {
            return Err(VaultError::InvalidAddress);
        }
    }
    state.set_lending_pool(lending_pool);
    Ok(())
}

/// Records the oracle. `NotInitialized` without an administrator;
/// `InvalidAddress` when the address is the configured lending pool.
pub fn set_oracle(state: &mut VaultState, oracle: AccountId) -> (r: Result<(), VaultError>)
    ensures
        r == (if old(state).admin is None {
            Err(VaultError::NotInitialized)
        } else if old(state).lending_pool == Some(oracle) {
            Err(VaultError::InvalidAddress)
        } else {
            Ok::<(), VaultError>(())
        }),
        r is Ok ==> *final(state) == (VaultState { oracle: Some(oracle), ..*old(state) }),
        r is Err ==> *final(state) == *old(state),
        pool_oracle_distinct(*old(state)) ==> pool_oracle_distinct(*final(state)),
{
    if state.get_admin().is_none() {
        return Err(VaultError::NotInitialized);
    }
    if let Some(pool) = state.get_lending_pool() {
        if oracle == pool {
            return Err(VaultError::InvalidAddress);
        }
    }
    state.set_oracle(oracle);
    Ok(())
}

/// Records the liquidation engine; `NotInitialized` without an
/// administrator.
pub fn set_liquidation_engine(state: &mut VaultState, engine: AccountId) -> (r: Result<(), VaultError>)
    ensures
        r == (if old(state).admin is None {
            Err(VaultError::NotInitialized)
        } else {
            Ok::<(), VaultError>(())
        }),
        r is Ok ==> *final(state) == (VaultState { liquidation_engine: Some(engine), ..*old(state) }),
        r is Err ==> *final(state) == *old(state),
{
    if state.get_admin().is_none() {
        return Err(VaultError::NotInitialized);
    }
    state.set_liquidation_engine(engine);
    Ok(())
}

/// Sets the operation's bit in the pause mask. `NotInitialized` without an
/// administrator; `AlreadyPaused` when the bit is already set.
pub fn pause_operation(state: &mut VaultState, operation: PauseFlag) -> (r: Result<(), VaultError>)
    ensures
        r == (if old(state).admin is None {
            Err(VaultError::NotInitialized)
        } else if mask_of(old(state).pause_mask) & pause_bit(operation) != 0 {
            Err(VaultError::AlreadyPaused)
        } else {
            Ok::<(), VaultError>(())
        }),
        r is Ok ==> *final(state) == (VaultState {
            pause_mask: Some(mask_of(old(state).pause_mask) | pause_bit(operation)),
            ..*old(state)
        }),
        r is Err ==> *final(state) == *old(state),
{
    if state.get_admin().is_none() {
        return Err(VaultError::NotInitialized);
    }
    if state.is_operation_paused(&operation) {
        return Err(VaultError::AlreadyPaused);
    }
    let mask = state.get_pause_mask();
    state.set_pause_mask(mask | operation.bit());
    Ok(())
}

/// Clears the operation's bit in the pause mask. `NotInitialized` without
/// an administrator; `NotPaused` when the bit is not set.
pub fn unpause_operation(state: &mut VaultState, operation: PauseFlag) -> (r: Result<(), VaultError>)
    ensures
        r == (if old(state).admin is None {
            Err(VaultError::NotInitialized)
        } else if mask_of(old(state).pause_mask) & pause_bit(operation) == 0 {
            Err(VaultError::NotPaused)
        } else {
            Ok::<(), VaultError>(())
        }),
        r is Ok ==> *final(state) == (VaultState {
            pause_mask: Some(mask_of(old(state).pause_mask) & !pause_bit(operation)),
            ..*old(state)
        }),
        r is Err ==> *final(state) == *old(state),
{
    if state.get_admin().is_none() {
        return Err(VaultError::NotInitialized);
    }
    if !state.is_operation_paused(&operation) {
        return Err(VaultError::NotPaused);
    }
    let mask = state.get_pause_mask();
    state.set_pause_mask(mask & !operation.bit());
    Ok(())
}

/// Trips the legacy circuit breaker. `NotInitialized` without an
/// administrator; `AlreadyPaused` when it is already tripped.
pub fn pause(state: &mut VaultState) -> (r: Result<(), VaultError>)
    ensures
        r == (if old(state).admin is None {
            Err(VaultError::NotInitialized)
        } else if old(state).paused {
            Err(VaultError::AlreadyPaused)
        } else {
            Ok::<(), VaultError>(())
        }),
        r is Ok ==> *final(state) == (VaultState { paused: true, ..*old(state) }),
        r is Err ==> *final(state) == *old(state),
{
    if state.get_admin().is_none() {
        return Err(VaultError::NotInitialized);
    }
    if state.is_paused() {
        return Err(VaultError::AlreadyPaused);
    }
    state.set_paused(true);
    Ok(())
}

/// Resets the legacy circuit breaker. `NotInitialized` without an
/// administrator; `NotPaused` when it is not tripped.
pub fn unpause(state: &mut VaultState) -> (r: Result<(), VaultError>)
    ensures
        r == (if old(state).admin is None {
            Err(VaultError::NotInitialized)
        } else if !old(state).paused {
            Err(VaultError::NotPaused)
        } else {
            Ok::<(), VaultError>(())
        }),
        r is Ok ==> *final(state) == (VaultState { paused: false, ..*old(state) }),
        r is Err ==> *final(state) == *old(state),
{
    if state.get_admin().is_none() {
        return Err(VaultError::NotInitialized);
    }
    if !state.is_paused() {
        return Err(VaultError::NotPaused);
    }
    state.set_paused(false);
    Ok(())
}

} // verus!
