//! Lenders' liquidity: supplying, withdrawing, and what is available.
use vstd::prelude::*;

use crate::common::{fits_i128, trunc_div, AccountId};
use crate::pool::errors::PoolError;
use crate::pool::storage::PoolState;
use crate::pool::types::PauseFlag;

verus! {

broadcast use vstd::std_specs::hash::group_hash_axioms;

/// Liquidity that is supplied and not lent out; zero when the difference
/// does not fit.
pub open spec fn available_liquidity(state: PoolState) -> int {
    if fits_i128(state.total_supply - state.total_borrowed) {
        state.total_supply - state.total_borrowed
    } else {
        0
    }
}

/// What `supply` returns.
pub open spec fn supply_result(state: PoolState, user: AccountId, amount: int) -> Result<(), PoolError> {
    if amount <= 0 {
        Err(PoolError::InvalidAmount)
    } else if state.paused(PauseFlag::Supply) {
        Err(PoolError::PoolPaused)
    } else if state.borrow_asset is None {
        Err(PoolError::NotInitialized)
    } else if !fits_i128(state.supply_of(user) + amount) || !fits_i128(state.total_supply + amount) {
        Err(PoolError::Overflow)
    } else {
        Ok(())
    }
}

/// Credits `amount` of the borrow asset, which `user` transfers to the pool
/// (and authorises), to the user's supply and to the total supply.
///
/// Errors, leaving the state unchanged: `InvalidAmount` for an amount that
/// is not positive; `PoolPaused` while supply is paused; `NotInitialized`
/// without a borrow asset; `Overflow`.
pub fn supply(state: &mut PoolState, user: AccountId, amount: i128) -> (r: Result<(), PoolError>)
    requires
        old(state).wf(),
    ensures
        r == supply_result(*old(state), user, amount as int),
        r is Ok ==> {
            &&& final(state).supplies@ == old(state).supplies@.insert(user, (old(state).supply_of(user) + amount) as i128)
            &&& final(state).total_supply == old(state).total_supply + amount
            &&& final(state).total_borrowed == old(state).total_borrowed
            &&& final(state).debts@ == old(state).debts@
            &&& final(state).same_settings(old(state))
        },
        r is Err ==> *final(state) == *old(state),
        final(state).wf(),
{
    if amount <= 0 {
        return Err(PoolError::InvalidAmount);
    }
    if state.is_operation_paused(&PauseFlag::Supply) {
        return Err(PoolError::PoolPaused);
    }
    if state.get_borrow_asset().is_none() {
        return Err(PoolError::NotInitialized);
    }
    let current = state.get_user_supply(user);
    let new_supply = match current.checked_add(amount) {
        Some(v) => v,
        None => {
            return Err(PoolError::Overflow);
        },
    };
    let new_total = match state.total_supply.checked_add(amount) {
        Some(v) => v,
        None => {
            return Err(PoolError::Overflow);
        },
    };
    state.supplies.insert(user, new_supply);
    state.total_supply = new_total;
    Ok(())
}

/// What `withdraw_liquidity` returns.
pub open spec fn withdraw_result(state: PoolState, user: AccountId, amount: int) -> Result<(), PoolError> {
    if amount <= 0 {
        Err(PoolError::InvalidAmount)
    } else if state.paused(PauseFlag::WithdrawLiquidity) {
        Err(PoolError::PoolPaused)
    } else if state.supply_of(user) < amount {
        Err(PoolError::InsufficientSupply)
    } else if available_liquidity(state) < amount {
        Err(PoolError::InsufficientLiquidity)
    } else if state.borrow_asset is None {
        Err(PoolError::NotInitialized)
    } else if !fits_i128(state.total_supply - amount) {
        Err(PoolError::Overflow)
    } else {
        Ok(())
    }
}

/// Debits `amount` from `user`'s supply and the total supply; the pool
/// then transfers it to the user (who authorises the withdrawal).
///
/// Errors, leaving the state unchanged: `InvalidAmount` for an amount that
/// is not positive; `PoolPaused` while withdrawals are paused;
/// `InsufficientSupply` when the user supplied less; `InsufficientLiquidity`
/// when less is available; `NotInitialized` without a borrow asset;
/// `Overflow`.
pub fn withdraw_liquidity(state: &mut PoolState, user: AccountId, amount: i128) -> (r: Result<(), PoolError>)
    requires
        old(state).wf(),
    ensures
        r == withdraw_result(*old(state), user, amount as int),
        r is Ok ==> {
            &&& final(state).supplies@ == old(state).supplies@.insert(user, (old(state).supply_of(user) - amount) as i128)
            &&& final(state).total_supply == old(state).total_supply - amount
            &&& final(state).total_borrowed == old(state).total_borrowed
            &&& final(state).debts@ == old(state).debts@
            &&& final(state).same_settings(old(state))
        },
        r is Err ==> *final(state) == *old(state),
        final(state).wf(),
{
    if amount <= 0 {
        return Err(PoolError::InvalidAmount);
    }
    if state.is_operation_paused(&PauseFlag::WithdrawLiquidity) {
        return Err(PoolError::PoolPaused);
    }
    let user_supply = state.get_user_supply(user);
    if user_supply < amount {
        return Err(PoolError::InsufficientSupply);
    }
    if get_available_liquidity(state) < amount {
        return Err(PoolError::InsufficientLiquidity);
    }
    if state.get_borrow_asset().is_none() {
        return Err(PoolError::NotInitialized);
    }
    let new_supply = user_supply - amount;
    let new_total = match state.total_supply.checked_sub(amount) {
        Some(v) => v,
        None => {
            return Err(PoolError::Overflow);
        },
    };
    state.supplies.insert(user, new_supply);
    state.total_supply = new_total;
    Ok(())
}

/// Liquidity supplied by `user`.
pub fn get_user_supply(state: &PoolState, user: AccountId) -> (r: i128)
    ensures
        r == state.supply_of(user),
{
    state.get_user_supply(user)
}

/// Liquidity supplied by all lenders.
pub fn get_total_supply(state: &PoolState) -> (r: i128)
    ensures
        r == state.total_supply,
{
    state.get_total_supply()
}

/// Supplied liquidity not lent out: total supply minus total borrowed, or
/// zero when that difference does not fit.
pub fn get_available_liquidity(state: &PoolState) -> (r: i128)
    ensures
        r == available_liquidity(*state),
{
    match state.total_supply.checked_sub(state.total_borrowed) {
        Some(v) => v,
        None => 0,
    }
}

/// Share of the supply that is lent out, in bps: `total_borrowed * 10_000
/// / total_supply` rounded toward zero and narrowed to `u32` (zero when
/// nothing is supplied). The product must fit in an `i128`.
pub fn get_utilization_bps(state: &PoolState) -> (r: u32)
    requires
        state.total_supply != 0 ==> fits_i128(state.total_borrowed * 10_000),
    ensures
        r == (if state.total_supply == 0 {
            0
        } else {
            trunc_div(state.total_borrowed * 10_000, state.total_supply as int) as u32
        }),
{
    if state.total_supply == 0 {
        return 0;
    }
    let scaled = state.total_borrowed * 10_000;
    proof {
        if scaled == i128::MIN {
            assert(false) by (nonlinear_arith)
                requires
                    scaled == state.total_borrowed * 10_000,
                    scaled == i128::MIN,
            ;
        }
        crate::common::lemma_trunc_div_fits(scaled as int, state.total_supply as int);
    }
    match scaled.checked_div(state.total_supply) {
        Some(v) => v as u32,
        None => 0,
    }
}

} // verus!
