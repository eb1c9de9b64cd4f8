//! Repaying debt, and whether a borrower can be liquidated.
use vstd::prelude::*;

use crate::common::{fits_i128, AccountId, Debt, HEALTHY_HF_BPS, MIN_REMAINING_DEBT};
use crate::pool::debt::{accrue_debt, accrued, lemma_accrued_nonnegative, with_accrued};
use crate::pool::errors::PoolError;
use crate::pool::storage::PoolState;
use crate::pool::types::{PauseFlag, Repayment};

verus! {

broadcast use vstd::std_specs::hash::group_hash_axioms;

/// How a payment of `amount` applies to debt `d` (with interest accrued):
/// at most the whole debt is taken, interest before principal.
pub open spec fn split_payment(d: Debt, amount: int) -> Repayment {
    let total = d.principal + d.accrued_interest;
    let payment = if amount < total { amount } else { total };
    let interest_paid = if payment < d.accrued_interest { payment } else { d.accrued_interest as int };
    Repayment {
        payment: payment as i128,
        interest_paid: interest_paid as i128,
        principal_paid: (payment - interest_paid) as i128,
    }
}

/// What `repay` returns.
pub open spec fn repay_result(state: PoolState, user: AccountId, asset: AccountId, amount: int, now: u64) -> Result<Repayment, PoolError> {
    if amount <= 0 {
        Err(PoolError::InvalidAmount)
    } else if state.borrow_asset is None {
        Err(PoolError::NotInitialized)
    } else if state.borrow_asset != Some(asset) {
        Err(PoolError::UnsupportedAsset)
    } else if state.paused(PauseFlag::Repay) {
        Err(PoolError::RepayPaused)
    } else {
        match accrued(state.debt_of(user), now) {
            Err(e) => Err(e),
            Ok(d) => {
                let total = d.principal + d.accrued_interest;
                let split = split_payment(d, amount);
                let remaining = total - split.payment;
                if !fits_i128(total) {
                    Err(PoolError::Overflow)
                } else if total == 0 {
                    Err(PoolError::NoDebt)
                } else if remaining > 0 && remaining < MIN_REMAINING_DEBT {
                    Err(PoolError::BelowMinDebt)
                } else if !fits_i128(state.total_borrowed - split.principal_paid) {
                    Err(PoolError::Overflow)
                } else {
                    Ok(split)
                }
            },
        }
    }
}

/// The debt left after `split` is applied to `d`.
pub open spec fn debt_after(d: Debt, split: Repayment) -> Debt {
    Debt {
        principal: (d.principal - split.principal_paid) as i128,
        accrued_interest: (d.accrued_interest - split.interest_paid) as i128,
        ..d
    }
}

/// Applies `amount` of `asset` from `user` (who authorises it) to the
/// user's debt at ledger time `now`: interest is accrued, then at most the
/// whole debt is taken, interest first, then principal. A debt paid off is
/// removed; the principal repaid leaves the total borrowed. The user then
/// transfers the payment to the pool.
///
/// Errors, leaving the state unchanged: `InvalidAmount` for an amount that
/// is not positive; `NotInitialized` without a borrow asset;
/// `UnsupportedAsset` for another asset; `RepayPaused`; the errors of
/// accrual; `NoDebt`; `BelowMinDebt` when less than the minimum debt, but
/// not nothing, would remain; `Overflow`.
pub fn repay(state: &mut PoolState, user: AccountId, asset: AccountId, amount: i128, now: u64) -> (r: Result<Repayment, PoolError>)
    requires
        old(state).wf(),
    ensures
        r == repay_result(*old(state), user, asset, amount as int, now),
        r matches Ok(split) ==> accrued(old(state).debt_of(user), now) matches Ok(d) && {
            &&& final(state).debts@ == (if d.principal + d.accrued_interest == split.payment {
                old(state).debts@.remove(user)
            } else {
                old(state).debts@.insert(user, debt_after(d, split))
            })
            &&& final(state).total_borrowed == old(state).total_borrowed - split.principal_paid
            &&& final(state).total_supply == old(state).total_supply
            &&& final(state).supplies@ == old(state).supplies@
            &&& final(state).same_settings(old(state))
        },
        r is Err ==> *final(state) == *old(state),
        final(state).wf(),
{
    if amount <= 0 {
        return Err(PoolError::InvalidAmount);
    }
    let borrow_asset = match state.get_borrow_asset() {
        Some(a) => a,
        None => {
            return Err(PoolError::NotInitialized);
        },
    };
    if asset != borrow_asset {
        return Err(PoolError::UnsupportedAsset);
    }
    if state.is_operation_paused(&PauseFlag::Repay) {
        return Err(PoolError::RepayPaused);
    }
    let recorded = state.load_debt(user);
    proof {
        lemma_accrued_nonnegative(recorded, now);
    }
    let debt = match accrue_debt(recorded, now) {
        Ok(d) => d,
        Err(e) => {
            return Err(e);
        },
    };
    let total_debt = match debt.total() {
        Ok(t) => t,
        Err(_) => {
            return Err(PoolError::Overflow);
        },
    };
    if total_debt == 0 {
        return Err(PoolError::NoDebt);
    }
    let payment = if amount < total_debt { amount } else { total_debt };
    let interest_paid = if payment < debt.accrued_interest { payment } else { debt.accrued_interest };
    let principal_paid = payment - interest_paid;
    let remaining = total_debt - payment;
    if remaining > 0 && remaining < MIN_REMAINING_DEBT {
        return Err(PoolError::BelowMinDebt);
    }
    let new_total_borrowed = match state.total_borrowed.checked_sub(principal_paid) {
        Some(v) => v,
        None => {
            return Err(PoolError::Overflow);
        },
    };
    let updated = Debt {
        principal: debt.principal - principal_paid,
        accrued_interest: debt.accrued_interest - interest_paid,
        ..debt
    };
    if remaining == 0 {
        state.debts.remove(&user);
    } else {
        state.debts.insert(user, updated);
    }
    state.total_borrowed = new_total_borrowed;
    Ok(Repayment { payment, interest_paid, principal_paid })
}

/// Repaying on another's behalf is not offered by this pool version.
pub fn repay_for(state: &PoolState, payer: AccountId, user: AccountId, asset: AccountId, amount: i128) -> (r: Result<(), PoolError>)
    ensures
        r == Err::<(), PoolError>(PoolError::NotImplemented),
{
    Err(PoolError::NotImplemented)
}

/// What `is_liquidatable` returns.
pub open spec fn pool_liquidatable_result(state: PoolState, user: AccountId, now: u64, health_factor: int) -> Result<bool, PoolError> {
    match accrued(state.debt_of(user), now) {
        Err(e) => Err(e),
        Ok(d) => if !fits_i128(d.principal + d.accrued_interest) {
            Err(PoolError::Overflow)
        } else if d.principal + d.accrued_interest == 0 {
            Ok(false)
        } else if state.vault is None {
            Err(PoolError::NotInitialized)
        } else {
            Ok(health_factor < HEALTHY_HF_BPS)
        },
    }
}

/// Whether `user` can be liquidated at ledger time `now`: some debt (with
/// interest accrued, and recorded so), and a health factor below 1.00 as
/// the vault reports it.
///
/// Errors, leaving the state unchanged: the errors of accrual; `Overflow`
/// when the total debt does not fit; `NotInitialized` without a vault.
pub fn is_liquidatable(state: &mut PoolState, user: AccountId, now: u64, health_factor: i128) -> (r: Result<bool, PoolError>)
    requires
        old(state).wf(),
    ensures
        r == pool_liquidatable_result(*old(state), user, now, health_factor as int),
        r is Ok ==> (accrued(old(state).debt_of(user), now) matches Ok(d)
            && final(state).debts@ == with_accrued(old(state).debts@, user, d)),
        final(state).supplies@ == old(state).supplies@,
        final(state).total_supply == old(state).total_supply,
        final(state).total_borrowed == old(state).total_borrowed,
        final(state).same_settings(old(state)),
        r is Err ==> *final(state) == *old(state),
        final(state).wf(),
{
    let recorded = state.load_debt(user);
    proof {
        lemma_accrued_nonnegative(recorded, now);
    }
    let debt = match accrue_debt(recorded, now) {
        Ok(d) => d,
        Err(e) => {
            return Err(e);
        },
    };
    let total = match debt.total() {
        Ok(t) => t,
        Err(_) => {
            return Err(PoolError::Overflow);
        },
    };
    if total != 0 && state.get_vault().is_none() {
        return Err(PoolError::NotInitialized);
    }
    crate::pool::debt::record_accrued(state, user, debt);
    if total == 0 {
        return Ok(false);
    }
    Ok(health_factor < HEALTHY_HF_BPS)
}

} // verus!
