//! Seizure of collateral by the registered liquidation engine.
use vstd::prelude::*;

use crate::common::AccountId;
use crate::vault::errors::VaultError;
use crate::vault::position::{checked_debit, debited};
use crate::vault::storage::{mask_of, VaultState};
use crate::vault::types::{pause_bit, PauseFlag};

verus! {

/// What seizing `amount` of `asset` from `user` returns.
pub open spec fn seize_result(state: VaultState, liquidation_engine: AccountId, user: AccountId, asset: AccountId, amount: i128) -> Result<(), VaultError> {
    if state.liquidation_engine != Some(liquidation_engine) {
        Err(VaultError::Unauthorized)
    } else if state.paused || mask_of(state.pause_mask) & pause_bit(PauseFlag::Liquidation) != 0 {
        Err(VaultError::VaultPaused)
    } else if amount <= 0 {
        Err(VaultError::InvalidAmount)
    } else if !state.positions().contains(user) {
        Err(VaultError::NoPosition)
    } else if state.balance(user, asset) < amount {
        Err(VaultError::InsufficientCollateral)
    } else {
        Ok(())
    }
}

/// Debits `amount` of `asset` from `user` on behalf of the liquidation
/// engine (whose authorisation the host has checked); the host then moves
/// the tokens to the engine.
///
/// Errors, leaving the state unchanged, in this order: `Unauthorized` when
/// `liquidation_engine` is not the registered engine; `VaultPaused` while
/// the circuit breaker is tripped or liquidations are paused; then the
/// errors of `checked_debit`.
pub fn execute_seize_authorized(
    state: &mut VaultState,
    liquidation_engine: AccountId,
    user: AccountId,
    asset: AccountId,
    amount: i128,
) -> (r: Result<(), VaultError>)
    requires
        old(state).wf(),
    ensures
        final(state).wf(),
        r == seize_result(*old(state), liquidation_engine, user, asset, amount),
        r is Err ==> *final(state) == *old(state),
        r is Ok ==> debited(*old(state), *final(state), user, asset, old(state).balance(user, asset) - amount),
{
    let registered_engine = match state.get_liquidation_engine() {
        Some(e) => e,
        None => {
            return Err(VaultError::Unauthorized);
        },
    };
    if liquidation_engine != registered_engine {
        return Err(VaultError::Unauthorized);
    }
    if state.is_paused() || state.is_operation_paused(&PauseFlag::Liquidation) {
        return Err(VaultError::VaultPaused);
    }
    match checked_debit(state, user, asset, amount) {
        Ok(_) => Ok(()),
        Err(e) => Err(e),
    }
}

} // verus!
