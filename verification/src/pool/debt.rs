//! Borrowers' debts and the interest accruing on them.
use vstd::prelude::*;

use crate::common::{accrue_linear_interest, fits_i128, linear_interest_result, AccountId, Debt};
use crate::pool::errors::{pool_error_of, PoolError};
use crate::pool::storage::PoolState;

verus! {

broadcast use vstd::std_specs::hash::group_hash_axioms;

/// `debt` with its interest accrued up to `now`: simple interest on the
/// principal at the debt's own rate for the seconds since the last
/// accrual. A debt of nothing, or one accrued at or after `now`, is
/// unchanged.
pub open spec fn accrued(debt: Debt, now: u64) -> Result<Debt, PoolError> {
    if debt.principal == 0 && debt.accrued_interest == 0 {
        Ok(debt)
    } else if now <= debt.last_accrual_at {
        Ok(debt)
    } else {
        match linear_interest_result(debt.principal as int, debt.interest_rate_bps as int, now - debt.last_accrual_at) {
            Err(e) => Err(pool_error_of(e)),
            Ok(interest) => if !fits_i128(debt.accrued_interest + interest) {
                Err(PoolError::Overflow)
            } else {
                Ok(Debt { accrued_interest: (debt.accrued_interest + interest) as i128, last_accrual_at: now, ..debt })
            },
        }
    }
}

/// The debt ledger after `user`'s debt was brought up to `updated`: a
/// recorded debt is replaced, an absent one stays absent.
pub open spec fn with_accrued(debts: Map<AccountId, Debt>, user: AccountId, updated: Debt) -> Map<AccountId, Debt> {
    if debts.contains_key(user) {
        debts.insert(user, updated)
    } else {
        debts
    }
}

/// Accrued interest is never negative on a debt whose principal is not.
pub proof fn lemma_accrued_nonnegative(debt: Debt, now: u64)
    requires
        debt.principal >= 0,
        debt.accrued_interest >= 0,
    ensures
        accrued(debt, now) matches Ok(d) ==> d.principal == debt.principal && d.accrued_interest >= debt.accrued_interest
            && d.interest_rate_bps == debt.interest_rate_bps,
{
    if !(debt.principal == 0 && debt.accrued_interest == 0) && now > debt.last_accrual_at {
        let p = debt.principal as int;
        let rate = debt.interest_rate_bps as int;
        let elapsed = now - debt.last_accrual_at;
        assert(p * rate >= 0) by (nonlinear_arith)
            requires
                p >= 0,
                rate >= 0,
        ;
        assert((p * rate) / 10_000 >= 0);
        assert((p * rate) / 10_000 * elapsed >= 0) by (nonlinear_arith)
            requires
                (p * rate) / 10_000 >= 0,
                elapsed >= 0,
        ;
    }
}

/// `debt` with its interest accrued up to `now` (see `accrued`).
pub fn accrue_debt(debt: Debt, now: u64) -> (r: Result<Debt, PoolError>)
    ensures
        r == accrued(debt, now),
{
    if debt.principal == 0 && debt.accrued_interest == 0 {
        return Ok(debt);
    }
    if now <= debt.last_accrual_at {
        return Ok(debt);
    }
    let interest = match accrue_linear_interest(debt.principal, debt.interest_rate_bps, now - debt.last_accrual_at) {
        Ok(i) => i,
        Err(e) => {
            return Err(PoolError::from(e));
        },
    };
    let total_interest = match debt.accrued_interest.checked_add(interest) {
        Some(v) => v,
        None => {
            return Err(PoolError::Overflow);
        },
    };
    Ok(Debt { accrued_interest: total_interest, last_accrual_at: now, ..debt })
}

/// Records `user`'s debt brought up to date, `updated`, when one is
/// recorded.
pub(crate) fn record_accrued(state: &mut PoolState, user: AccountId, updated: Debt)
    requires
        old(state).wf(),
        updated.principal >= 0,
        updated.accrued_interest >= 0,
    ensures
        final(state).debts@ == with_accrued(old(state).debts@, user, updated),
        final(state).supplies@ == old(state).supplies@,
        final(state).total_supply == old(state).total_supply,
        final(state).total_borrowed == old(state).total_borrowed,
        final(state).same_settings(old(state)),
        final(state).wf(),
{
    if state.debts.contains_key(&user) {
        state.debts.insert(user, updated);
    }
}

/// Brings `user`'s debt up to `now` and records it, principal untouched.
/// A user without debt gets a zero debt and nothing is recorded.
///
/// Errors, leaving the state unchanged: those of the interest arithmetic
/// (`Overflow`) and `Overflow` when the accrued interest does not fit.
pub fn accrue_interest(state: &mut PoolState, user: AccountId, now: u64) -> (r: Result<Debt, PoolError>)
    requires
        old(state).wf(),
    ensures
        r == accrued(old(state).debt_of(user), now),
        r matches Ok(d) ==> final(state).debts@ == with_accrued(old(state).debts@, user, d),
        final(state).supplies@ == old(state).supplies@,
        final(state).total_supply == old(state).total_supply,
        final(state).total_borrowed == old(state).total_borrowed,
        final(state).same_settings(old(state)),
        r is Err ==> *final(state) == *old(state),
        final(state).wf(),
{
    let debt = state.load_debt(user);
    proof {
        lemma_accrued_nonnegative(debt, now);
    }
    let updated = match accrue_debt(debt, now) {
        Ok(d) => d,
        Err(e) => {
            return Err(e);
        },
    };
    record_accrued(state, user, updated);
    Ok(updated)
}

/// `user`'s debt brought up to `now` (and recorded so).
pub fn get_debt(state: &mut PoolState, user: AccountId, now: u64) -> (r: Result<Debt, PoolError>)
    requires
        old(state).wf(),
    ensures
        r == accrued(old(state).debt_of(user), now),
        r matches Ok(d) ==> final(state).debts@ == with_accrued(old(state).debts@, user, d),
        final(state).supplies@ == old(state).supplies@,
        final(state).total_supply == old(state).total_supply,
        final(state).total_borrowed == old(state).total_borrowed,
        final(state).same_settings(old(state)),
        r is Err ==> *final(state) == *old(state),
        final(state).wf(),
{
    accrue_interest(state, user, now)
}

/// What `get_user_debt` returns: principal plus interest accrued to `now`.
pub open spec fn user_debt_result(debt: Debt, now: u64) -> Result<i128, PoolError> {
    match accrued(debt, now) {
        Err(e) => Err(e),
        Ok(d) => if fits_i128(d.principal + d.accrued_interest) {
            Ok((d.principal + d.accrued_interest) as i128)
        } else {
            Err(PoolError::Overflow)
        },
    }
}

/// `user`'s total debt, principal plus interest, brought up to `now` (and
/// recorded so).
///
/// Errors, leaving the state unchanged: those of `accrue_interest`;
/// `Overflow` when the total does not fit.
pub fn get_user_debt(state: &mut PoolState, user: AccountId, now: u64) -> (r: Result<i128, PoolError>)
    requires
        old(state).wf(),
    ensures
        r == user_debt_result(old(state).debt_of(user), now),
        r is Ok ==> (accrued(old(state).debt_of(user), now) matches Ok(d)
            && final(state).debts@ == with_accrued(old(state).debts@, user, d)),
        final(state).supplies@ == old(state).supplies@,
        final(state).total_supply == old(state).total_supply,
        final(state).total_borrowed == old(state).total_borrowed,
        final(state).same_settings(old(state)),
        r is Err ==> *final(state) == *old(state),
        final(state).wf(),
{
    let debt = state.load_debt(user);
    proof {
        lemma_accrued_nonnegative(debt, now);
    }
    let updated = match accrue_debt(debt, now) {
        Ok(d) => d,
        Err(e) => {
            return Err(e);
        },
    };
    let total = match updated.total() {
        Ok(t) => t,
        Err(_) => {
            return Err(PoolError::Overflow);
        },
    };
    record_accrued(state, user, updated);
    Ok(total)
}

} // verus!
