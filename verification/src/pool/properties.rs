//! Properties of the pool's operations that span several calls.
use vstd::prelude::*;

use crate::common::{AccountId, MIN_REMAINING_DEBT};
use crate::pool::borrow::{borrowed_debt, limit_result, min_ltv, min_ltv_upto};
use crate::pool::debt::accrued;
use crate::pool::liquidity::{supply_result, withdraw_result};
use crate::pool::repay::repay_result;
use crate::pool::storage::PoolState;
use crate::pool::types::{pool_pause_bit, PauseFlag};

verus! {

/// `after` is `before` with `amount` credited to `user`'s supply, as
/// `supply` leaves it.
pub open spec fn supplied(before: PoolState, after: PoolState, user: AccountId, amount: int) -> bool {
    &&& after.supplies@ == before.supplies@.insert(user, (before.supply_of(user) + amount) as i128)
    &&& after.total_supply == before.total_supply + amount
    &&& after.total_borrowed == before.total_borrowed
    &&& after.same_settings(&before)
}

/// `after` is `before` with `amount` debited from `user`'s supply, as
/// `withdraw_liquidity` leaves it.
pub open spec fn withdrawn(before: PoolState, after: PoolState, user: AccountId, amount: int) -> bool {
    &&& after.supplies@ == before.supplies@.insert(user, (before.supply_of(user) - amount) as i128)
    &&& after.total_supply == before.total_supply - amount
    &&& after.total_borrowed == before.total_borrowed
    &&& after.same_settings(&before)
}

/// Supplying an amount and withdrawing it again gives every lender the
/// supply they had, and the pool its total supply; the withdrawal is
/// refused only while withdrawals are paused or when the liquidity is lent
/// out.
pub proof fn lemma_supply_then_withdraw(s0: PoolState, s1: PoolState, s2: PoolState, user: AccountId, amount: int)
    requires
        s0.wf(),
        supply_result(s0, user, amount) is Ok,
        supplied(s0, s1, user, amount),
    ensures
        withdraw_result(s1, user, amount) is Ok <==> (!s0.paused(PauseFlag::WithdrawLiquidity)
            && crate::pool::liquidity::available_liquidity(s1) >= amount),
        withdrawn(s1, s2, user, amount) ==> {
            &&& forall|u: AccountId| #[trigger] s2.supply_of(u) == s0.supply_of(u)
            &&& s2.total_supply == s0.total_supply
            &&& s2.total_borrowed == s0.total_borrowed
        },
{
    assert(s1.supply_of(user) == s0.supply_of(user) + amount);
    if withdrawn(s1, s2, user, amount) {
        assert forall|u: AccountId| #[trigger] s2.supply_of(u) == s0.supply_of(u) by {
            if u != user {
                assert(s1.supply_of(u) == s0.supply_of(u));
            }
        }
    }
}

/// Pausing an operation that is running and then unpausing it restores the
/// pause mask, and so does unpausing a paused one and pausing it again.
pub proof fn lemma_pause_unpause_restores(mask: u32, flag: PauseFlag)
    ensures
        mask & pool_pause_bit(flag) == 0 ==> ((mask | pool_pause_bit(flag)) & pool_pause_bit(flag) != 0 && ((mask
            | pool_pause_bit(flag)) & !pool_pause_bit(flag)) == mask),
        mask & pool_pause_bit(flag) != 0 ==> ((mask & !pool_pause_bit(flag)) & pool_pause_bit(flag) == 0 && ((mask
            & !pool_pause_bit(flag)) | pool_pause_bit(flag)) == mask),
{
    let b = pool_pause_bit(flag);
    assert(b == 1 || b == 2 || b == 4 || b == 8);
    assert(mask & b == 0 ==> ((mask | b) & b != 0 && ((mask | b) & !b) == mask)) by (bit_vector)
        requires
            b == 1 || b == 2 || b == 4 || b == 8,
    ;
    assert(mask & b != 0 ==> ((mask & !b) & b == 0 && ((mask & !b) | b) == mask)) by (bit_vector)
        requires
            b == 1 || b == 2 || b == 4 || b == 8,
    ;
}

/// A repayment settles interest before principal: it takes no more than
/// the amount offered nor than the debt, pays interest up to what has
/// accrued, pays principal only once all interest is paid, and leaves
/// either nothing or at least the minimum debt.
pub proof fn lemma_repay_interest_first(state: PoolState, user: AccountId, asset: AccountId, amount: int, now: u64)
    requires
        state.wf(),
        repay_result(state, user, asset, amount, now) is Ok,
    ensures
        repay_result(state, user, asset, amount, now) matches Ok(split) && accrued(state.debt_of(user), now) matches Ok(d)
            && {
            &&& split.payment == (if amount < d.principal + d.accrued_interest {
                amount
            } else {
                d.principal + d.accrued_interest
            })
            &&& 0 <= split.interest_paid <= d.accrued_interest
            &&& 0 <= split.principal_paid <= d.principal
            &&& split.interest_paid + split.principal_paid == split.payment
            &&& split.principal_paid > 0 ==> split.interest_paid == d.accrued_interest
            &&& d.principal + d.accrued_interest - split.payment == 0 || d.principal + d.accrued_interest - split.payment
                >= MIN_REMAINING_DEBT
        },
{
    crate::pool::debt::lemma_accrued_nonnegative(state.debt_of(user), now);
}

/// A successful borrow keeps the borrower's total debt within the limit of
/// `calculate_limit`, adds exactly the amount borrowed to the principal,
/// and leaves the interest already accrued as it was.
pub proof fn lemma_borrow_within_limit(
    state: PoolState,
    user: AccountId,
    asset: AccountId,
    amount: int,
    now: u64,
    position_ltvs: Option<Seq<u32>>,
    collateral_value: int,
)
    requires
        borrowed_debt(state, user, asset, amount, now, position_ltvs, collateral_value) is Ok,
    ensures
        borrowed_debt(state, user, asset, amount, now, position_ltvs, collateral_value) matches Ok(nd)
            && limit_result(state, position_ltvs, collateral_value) matches Ok(limit)
            && accrued(state.debt_of(user), now) matches Ok(d)
            && {
            &&& nd.principal + nd.accrued_interest <= limit
            &&& nd.principal == d.principal + amount
            &&& nd.accrued_interest == d.accrued_interest
            &&& amount > 0
        },
{
}

/// A borrow is granted only out of the liquidity that is not lent out: the
/// amount borrowed is at most the total supply less what is already
/// borrowed, so a successful borrow never leaves more borrowed than was
/// supplied.
pub proof fn lemma_borrow_within_liquidity(
    state: PoolState,
    user: AccountId,
    asset: AccountId,
    amount: int,
    now: u64,
    position_ltvs: Option<Seq<u32>>,
    collateral_value: int,
)
    requires
        borrowed_debt(state, user, asset, amount, now, position_ltvs, collateral_value) is Ok,
    ensures
        amount <= state.total_supply - state.total_borrowed,
        state.total_borrowed + amount <= state.total_supply,
{
}

proof fn lemma_min_ltv_upto(ltvs: Seq<u32>, n: int)
    requires
        0 <= n <= ltvs.len(),
    ensures
        min_ltv_upto(ltvs, n) is None <==> n == 0,
        min_ltv_upto(ltvs, n) matches Some(m) ==> (forall|i: int| 0 <= i < n ==> m <= #[trigger] ltvs[i]) && exists|
            i: int,
        | 0 <= i < n && m == #[trigger] ltvs[i],
    decreases n,
{
    if n > 0 {
        lemma_min_ltv_upto(ltvs, n - 1);
    }
}

/// The borrow limit is taken at the smallest origination LTV of the
/// position's assets: it is no larger than the LTV of any of them and is
/// the LTV of one of them; a position without assets has none.
pub proof fn lemma_min_ltv_is_smallest(ltvs: Seq<u32>)
    ensures
        min_ltv(ltvs) is None <==> ltvs.len() == 0,
        min_ltv(ltvs) matches Some(m) ==> (forall|i: int| 0 <= i < ltvs.len() ==> m <= #[trigger] ltvs[i]) && exists|
            i: int,
        | 0 <= i < ltvs.len() && m == #[trigger] ltvs[i],
{
    lemma_min_ltv_upto(ltvs, ltvs.len() as int);
}

} // verus!
