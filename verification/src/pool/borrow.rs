//! Borrowing against vault collateral.
use vstd::prelude::*;

use crate::common::{borrow_limit_from_collateral, borrow_limit_result, fits_i128, AccountId, Debt};
use crate::pool::debt::{accrue_debt, accrued, lemma_accrued_nonnegative};
use crate::pool::errors::{pool_error_of, PoolError};
use crate::pool::liquidity::{available_liquidity, get_available_liquidity};
use crate::pool::storage::PoolState;
use crate::pool::types::PauseFlag;

verus! {

broadcast use vstd::std_specs::hash::group_hash_axioms;

/// The smallest of the first `n` origination LTVs; `None` when `n` is 0.
pub open spec fn min_ltv_upto(ltvs: Seq<u32>, n: int) -> Option<u32>
    decreases n,
{
    if n <= 0 {
        None
    } else {
        match min_ltv_upto(ltvs, n - 1) {
            None => Some(ltvs[n - 1]),
            Some(m) => Some(if ltvs[n - 1] < m { ltvs[n - 1] } else { m }),
        }
    }
}

/// The smallest origination LTV of a position's assets.
pub open spec fn min_ltv(ltvs: Seq<u32>) -> Option<u32> {
    min_ltv_upto(ltvs, ltvs.len() as int)
}

/// What `calculate_limit` returns.
pub open spec fn limit_result(state: PoolState, position_ltvs: Option<Seq<u32>>, collateral_value: int) -> Result<i128, PoolError> {
    if state.vault is None {
        Err(PoolError::NotInitialized)
    } else {
        match position_ltvs {
            None => Err(PoolError::NoCollateral),
            Some(ltvs) => match min_ltv(ltvs) {
                None => Err(PoolError::NoCollateral),
                Some(ltv) => match borrow_limit_result(collateral_value, ltv as int) {
                    Err(e) => Err(pool_error_of(e)),
                    Ok(limit) => Ok(limit),
                },
            },
        }
    }
}

/// The largest total debt a borrower may carry: the collateral value
/// (read from the vault) at the smallest origination LTV among the assets
/// of the position (the max-LTV of each asset in the vault position, read
/// from the vault; `None` when the position could not be read).
///
/// Errors: `NotInitialized` without a vault; `NoCollateral` without a
/// readable position or without assets; `InvalidAmount`, `InvalidRate` or
/// `Overflow` from the limit arithmetic.
pub fn calculate_limit(state: &PoolState, position_ltvs: Option<Vec<u32>>, collateral_value: i128) -> (r: Result<i128, PoolError>)
    ensures
        r == limit_result(*state, match position_ltvs {
            Some(v) => Some(v@),
            None => None,
        }, collateral_value as int),
{
    if state.get_vault().is_none() {
        return Err(PoolError::NotInitialized);
    }
    let ltvs = match position_ltvs {
        Some(v) => v,
        None => {
            return Err(PoolError::NoCollateral);
        },
    };
    let mut lowest: Option<u32> = None;
    let mut i: usize = 0;
    while i < ltvs.len()
        invariant
            i <= ltvs.len(),
            lowest == min_ltv_upto(ltvs@, i as int),
        decreases ltvs.len() - i,
    {
        let ltv = ltvs[i];
        lowest = match lowest {
            Some(current) => Some(if ltv < current { ltv } else { current }),
            None => Some(ltv),
        };
        i = i + 1;
    }
    let ltv = match lowest {
        Some(l) => l,
        None => {
            return Err(PoolError::NoCollateral);
        },
    };
    match borrow_limit_from_collateral(collateral_value, ltv) {
        Ok(limit) => Ok(limit),
        Err(e) => Err(PoolError::from(e)),
    }
}

/// The debt `user` carries after borrowing `amount` of `asset` at `now`,
/// or why the borrow is refused.
pub open spec fn borrowed_debt(
    state: PoolState,
    user: AccountId,
    asset: AccountId,
    amount: int,
    now: u64,
    position_ltvs: Option<Seq<u32>>,
    collateral_value: int,
) -> Result<Debt, PoolError> {
    if amount <= 0 {
        Err(PoolError::InvalidAmount)
    } else if state.borrow_asset is None {
        Err(PoolError::NotInitialized)
    } else if state.borrow_asset != Some(asset) {
        Err(PoolError::UnsupportedAsset)
    } else if state.paused(PauseFlag::Borrow) {
        Err(PoolError::BorrowPaused)
    } else {
        match accrued(state.debt_of(user), now) {
            Err(e) => Err(e),
            Ok(d) => if available_liquidity(state) < amount {
                Err(PoolError::InsufficientLiquidity)
            } else {
                match limit_result(state, position_ltvs, collateral_value) {
                    Err(e) => Err(e),
                    Ok(limit) => if !fits_i128(d.principal + d.accrued_interest) || !fits_i128(
                        d.principal + d.accrued_interest + amount,
                    ) {
                        Err(PoolError::Overflow)
                    } else if d.principal + d.accrued_interest + amount > limit {
                        Err(PoolError::ExceedsBorrowLimit)
                    } else if !fits_i128(d.principal + amount) || !fits_i128(state.total_borrowed + amount) {
                        Err(PoolError::Overflow)
                    } else if d.principal == 0 && d.accrued_interest == 0 {
                        Ok(Debt {
                            principal: (d.principal + amount) as i128,
                            interest_rate_bps: state.interest_rate_bps,
                            last_accrual_at: now,
                            ..d
                        })
                    } else {
                        Ok(Debt { principal: (d.principal + amount) as i128, ..d })
                    }
                }
            }
        }
    }
}

/// Lends `amount` of the borrow asset to `user` (who authorises it) at
/// ledger time `now`, given the position's max-LTVs and collateral value
/// read from the vault. Interest is first accrued on the existing debt;
/// the new total debt must stay within the limit of `calculate_limit`. A
/// first borrow fixes the debt's rate to the pool's and starts its clock.
/// The pool then transfers `amount` to the user.
///
/// Errors, leaving the state unchanged: `InvalidAmount` for an amount that
/// is not positive; `NotInitialized` without a borrow asset;
/// `UnsupportedAsset` for another asset; `BorrowPaused`; the errors of
/// accrual; `InsufficientLiquidity`; the errors of `calculate_limit`;
/// `ExceedsBorrowLimit`; `Overflow`.
pub fn borrow(
    state: &mut PoolState,
    user: AccountId,
    asset: AccountId,
    amount: i128,
    now: u64,
    position_ltvs: Option<Vec<u32>>,
    collateral_value: i128,
) -> (r: Result<(), PoolError>)
    requires
        old(state).wf(),
    ensures
        match borrowed_debt(*old(state), user, asset, amount as int, now, match position_ltvs {
            Some(v) => Some(v@),
            None => None,
        }, collateral_value as int) {
            Err(e) => r == Err::<(), PoolError>(e) && *final(state) == *old(state),
            Ok(d) => {
                &&& r is Ok
                &&& final(state).debts@ == old(state).debts@.insert(user, d)
                &&& final(state).total_borrowed == old(state).total_borrowed + amount
                &&& final(state).total_supply == old(state).total_supply
                &&& final(state).supplies@ == old(state).supplies@
                &&& final(state).same_settings(old(state))
            },
        },
        r is Ok ==> final(state).total_borrowed <= final(state).total_supply,
        final(state).wf(),
{
    if amount <= 0 {
        return Err(PoolError::InvalidAmount);
    }
    let borrow_asset = match state.get_borrow_asset() {
        Some(a) => a,
        None => {
            return Err(PoolError::NotInitialized);
        },
    };
    if asset != borrow_asset {
        return Err(PoolError::UnsupportedAsset);
    }
    if state.is_operation_paused(&PauseFlag::Borrow) {
        return Err(PoolError::BorrowPaused);
    }
    let recorded = state.load_debt(user);
    proof {
        lemma_accrued_nonnegative(recorded, now);
    }
    let mut debt = match accrue_debt(recorded, now) {
        Ok(d) => d,
        Err(e) => {
            return Err(e);
        },
    };
    if get_available_liquidity(state) < amount {
        return Err(PoolError::InsufficientLiquidity);
    }
    let limit = match calculate_limit(state, position_ltvs, collateral_value) {
        Ok(l) => l,
        Err(e) => {
            return Err(e);
        },
    };
    let current_total = match debt.total() {
        Ok(t) => t,
        Err(_) => {
            return Err(PoolError::Overflow);
        },
    };
    let new_debt = match current_total.checked_add(amount) {
        Some(v) => v,
        None => {
            return Err(PoolError::Overflow);
        },
    };
    if new_debt > limit {
        return Err(PoolError::ExceedsBorrowLimit);
    }
    let new_principal = match debt.principal.checked_add(amount) {
        Some(v) => v,
        None => {
            return Err(PoolError::Overflow);
        },
    };
    let new_total_borrowed = match state.total_borrowed.checked_add(amount) {
        Some(v) => v,
        None => {
            return Err(PoolError::Overflow);
        },
    };
    if debt.principal == 0 && debt.accrued_interest == 0 {
        debt.interest_rate_bps = state.get_interest_rate_bps();
        debt.last_accrual_at = now;
    }
    debt.principal = new_principal;
    state.debts.insert(user, debt);
    state.total_borrowed = new_total_borrowed;
    Ok(())
}

} // verus!
