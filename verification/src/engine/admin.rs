//! Initialisation and re-pointing of the engine. The four roles (admin,
//! vault, pool, oracle) must always be distinct accounts.
use vstd::prelude::*;

use crate::common::AccountId;
use crate::engine::errors::EngineError;
use crate::engine::storage::EngineState;

verus! {

/// Whether `a` equals the recorded address `slot`.
pub open spec fn collides(a: AccountId, slot: Option<AccountId>) -> bool {
    slot == Some(a)
}

/// The administrator, vault, pool and oracle that are recorded are pairwise
/// distinct accounts.
pub open spec fn roles_distinct(s: EngineState) -> bool {
    let roles = seq![s.admin, s.vault, s.pool, s.oracle];
    forall|i: int, j: int| 0 <= i < j < 4 && #[trigger] roles[i] is Some && #[trigger] roles[j] is Some ==> roles[i] != roles[j]
}

fn collides_exec(a: AccountId, slot: Option<AccountId>) -> (r: bool)
    ensures
        r == collides(a, slot),
{
    match slot {
        Some(s) => s == a,
        None => false,
    }
}

/// Records the four roles (the administrator authorises it).
///
/// Errors, leaving the state unchanged: `AlreadyInitialized` when an
/// administrator is recorded; `InvalidAddress` when two roles share an
/// account.
pub fn initialize(state: &mut EngineState, admin: AccountId, vault: AccountId, pool: AccountId, oracle: AccountId) -> (r: Result<(), EngineError>)
    ensures
        r == (if old(state).admin is Some {
            Err(EngineError::AlreadyInitialized)
        } else if admin == vault || admin == pool || admin == oracle || vault == pool || vault == oracle || pool == oracle {
            Err(EngineError::InvalidAddress)
        } else {
            Ok::<(), EngineError>(())
        }),
        r is Ok ==> *final(state) == (EngineState { admin: Some(admin), vault: Some(vault), pool: Some(pool), oracle: Some(oracle) }),
        r is Ok ==> roles_distinct(*final(state)),
        r is Err ==> *final(state) == *old(state),
{
    if state.has_admin() {
        return Err(EngineError::AlreadyInitialized);
    }
    if admin == vault || admin == pool || admin == oracle || vault == pool || vault == oracle || pool == oracle {
        return Err(EngineError::InvalidAddress);
    }
    *state = EngineState { admin: Some(admin), vault: Some(vault), pool: Some(pool), oracle: Some(oracle) };
    Ok(())
}

/// Hands administration to `new_admin` (the current administrator
/// authorises it).
///
/// Errors, leaving the state unchanged: `NotInitialized`; `AlreadyAdmin`;
/// `InvalidAddress` when `new_admin` is the vault, the pool or the oracle.
pub fn set_admin(state: &mut EngineState, new_admin: AccountId) -> (r: Result<(), EngineError>)
    ensures
        r == (match old(state).admin {
            None => Err(EngineError::NotInitialized),
            Some(a) => if a == new_admin {
                Err(EngineError::AlreadyAdmin)
            } else if collides(new_admin, old(state).vault) || collides(new_admin, old(state).pool) || collides(new_admin, old(state).oracle) {
                Err(EngineError::InvalidAddress)
            } else {
                Ok::<(), EngineError>(())
            },
        }),
        r is Ok ==> *final(state) == (EngineState { admin: Some(new_admin), ..*old(state) }),
        r is Err ==> *final(state) == *old(state),
        roles_distinct(*old(state)) ==> roles_distinct(*final(state)),
{
    let current_admin = match state.get_admin() {
        Some(a) => a,
        None => {
            return Err(EngineError::NotInitialized);
        },
    };
    if current_admin == new_admin {
        return Err(EngineError::AlreadyAdmin);
    }
    if collides_exec(new_admin, state.vault) || collides_exec(new_admin, state.pool) || collides_exec(new_admin, state.oracle) {
        return Err(EngineError::InvalidAddress);
    }
    state.admin = Some(new_admin);
    Ok(())
}

/// Re-points the engine at another vault (administrator only).
///
/// Errors, leaving the state unchanged: `NotInitialized`; `InvalidAddress`
/// when `vault` is the administrator, the pool or the oracle.
pub fn set_vault(state: &mut EngineState, vault: AccountId) -> (r: Result<(), EngineError>)
    ensures
        r == (match old(state).admin {
            None => Err(EngineError::NotInitialized),
            Some(a) => if vault == a || collides(vault, old(state).pool) || collides(vault, old(state).oracle) {
                Err(EngineError::InvalidAddress)
            } else {
                Ok::<(), EngineError>(())
            },
        }),
        r is Ok ==> *final(state) == (EngineState { vault: Some(vault), ..*old(state) }),
        r is Err ==> *final(state) == *old(state),
        roles_distinct(*old(state)) ==> roles_distinct(*final(state)),
{
    let admin = match state.get_admin() {
        Some(a) => a,
        None => {
            return Err(EngineError::NotInitialized);
        },
    };
    if vault == admin || collides_exec(vault, state.pool) || collides_exec(vault, state.oracle) {
        return Err(EngineError::InvalidAddress);
    }
    state.vault = Some(vault);
    Ok(())
}

/// Re-points the engine at another lending pool (administrator only).
///
/// Errors, leaving the state unchanged: `NotInitialized`; `InvalidAddress`
/// when `pool` is the administrator, the vault or the oracle.
pub fn set_pool(state: &mut EngineState, pool: AccountId) -> (r: Result<(), EngineError>)
    ensures
        r == (match old(state).admin {
            None => Err(EngineError::NotInitialized),
            Some(a) => if pool == a || collides(pool, old(state).vault) || collides(pool, old(state).oracle) {
                Err(EngineError::InvalidAddress)
            } else {
                Ok::<(), EngineError>(())
            },
        }),
        r is Ok ==> *final(state) == (EngineState { pool: Some(pool), ..*old(state) }),
        r is Err ==> *final(state) == *old(state),
        roles_distinct(*old(state)) ==> roles_distinct(*final(state)),
{
    let admin = match state.get_admin() {
        Some(a) => a,
        None => {
            return Err(EngineError::NotInitialized);
        },
    };
    if pool == admin || collides_exec(pool, state.vault) || collides_exec(pool, state.oracle) {
        return Err(EngineError::InvalidAddress);
    }
    state.pool = Some(pool);
    Ok(())
}

/// Re-points the engine at another oracle (administrator only).
///
/// Errors, leaving the state unchanged: `NotInitialized`; `InvalidAddress`
/// when `oracle` is the administrator, the vault or the pool.
pub fn set_oracle(state: &mut EngineState, oracle: AccountId) -> (r: Result<(), EngineError>)
    ensures
        r == (match old(state).admin {
            None => Err(EngineError::NotInitialized),
            Some(a) => if oracle == a || collides(oracle, old(state).vault) || collides(oracle, old(state).pool) {
                Err(EngineError::InvalidAddress)
            } else {
                Ok::<(), EngineError>(())
            },
        }),
        r is Ok ==> *final(state) == (EngineState { oracle: Some(oracle), ..*old(state) }),
        r is Err ==> *final(state) == *old(state),
        roles_distinct(*old(state)) ==> roles_distinct(*final(state)),
{
    let admin = match state.get_admin() {
        Some(a) => a,
        None => {
            return Err(EngineError::NotInitialized);
        },
    };
    if oracle == admin || collides_exec(oracle, state.vault) || collides_exec(oracle, state.pool) {
        return Err(EngineError::InvalidAddress);
    }
    state.oracle = Some(oracle);
    Ok(())
}

} // verus!
