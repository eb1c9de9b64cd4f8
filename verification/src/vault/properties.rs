//! Properties of the vault's arithmetic and operations that span several
//! calls.
use vstd::prelude::*;

use crate::common::{ceil_div_spec, lemma_trunc_div_rem, trunc_div, AccountId};
use crate::vault::contract::{collateral_value_result, withdraw_result, withdrawal_safe_result};
use crate::vault::math::mul_div_result;
use crate::vault::risk::{lemma_min_threshold_is_weakest_held, min_threshold, normalized_valuation, position_health_result};
use crate::vault::position::{credited, debited};
use crate::vault::storage::VaultState;
use crate::vault::types::{pause_bit, PauseFlag};

verus! {

/// For non-negative factors and a positive divisor, `checked_mul_div`
/// rounds down: its result scaled back never exceeds the product, and one
/// more would.
pub proof fn lemma_mul_div_rounds_down(a: int, b: int, denom: int)
    requires
        a >= 0,
        b >= 0,
        denom > 0,
        mul_div_result(a, b, denom) is Ok,
    ensures
        mul_div_result(a, b, denom) matches Ok(r) && r * denom <= a * b < (r + 1) * denom,
{
    assert(a * b >= 0) by (nonlinear_arith)
        requires
            a >= 0,
            b >= 0,
    ;
    lemma_trunc_div_rem(a * b, denom);
    let q = trunc_div(a * b, denom);
    assert((q + 1) * denom == q * denom + denom) by (nonlinear_arith);
}

/// The collateral required for a debt is never understated: it is the
/// least amount whose ratio-scaled value covers the debt.
pub proof fn lemma_required_collateral_covers(debt: int, min_ratio_bps: int)
    ensures
        ceil_div_spec(debt * min_ratio_bps, 10_000) * 10_000 >= debt * min_ratio_bps,
        (ceil_div_spec(debt * min_ratio_bps, 10_000) - 1) * 10_000 < debt * min_ratio_bps,
{
    let x = debt * min_ratio_bps;
    vstd::arithmetic::div_mod::lemma_fundamental_div_mod(-x, 10_000);
    vstd::arithmetic::div_mod::lemma_mod_bound(-x, 10_000);
}

/// Pausing an operation that is running and then unpausing it restores the
/// pause mask, and so does unpausing a paused one and pausing it again.
pub proof fn lemma_pause_unpause_restores(mask: u32, flag: PauseFlag)
    ensures
        mask & pause_bit(flag) == 0 ==> ((mask | pause_bit(flag)) & pause_bit(flag) != 0 && ((mask | pause_bit(flag))
            & !pause_bit(flag)) == mask),
        mask & pause_bit(flag) != 0 ==> ((mask & !pause_bit(flag)) & pause_bit(flag) == 0 && ((mask & !pause_bit(flag))
            | pause_bit(flag)) == mask),
{
    let b = pause_bit(flag);
    assert(mask & b == 0 ==> ((mask | b) & b != 0 && ((mask | b) & !b) == mask)) by (bit_vector)
        requires
            b == 1 || b == 2 || b == 4 || b == 8 || b == 16,
    ;
    assert(mask & b != 0 ==> ((mask & !b) & b == 0 && ((mask & !b) | b) == mask)) by (bit_vector)
        requires
            b == 1 || b == 2 || b == 4 || b == 8 || b == 16,
    ;
}

/// Crediting an amount to a balance and debiting the same amount again
/// leaves every balance as it was.
pub proof fn lemma_credit_then_debit(s0: VaultState, s1: VaultState, s2: VaultState, user: AccountId, asset: AccountId, amount: int)
    requires
        credited(s0, s1, user, asset, s0.balance(user, asset) + amount),
        debited(s1, s2, user, asset, s1.balance(user, asset) - amount),
    ensures
        forall|u: AccountId, a: AccountId| #[trigger] s2.balance(u, a) == s0.balance(u, a),
        s2.configs() == s0.configs(),
        s2.supported() == s0.supported(),
{
    assert forall|u: AccountId, a: AccountId| #[trigger] s2.balance(u, a) == s0.balance(u, a) by {
        assert(s2.balance(u, a) == (if u == user && a == asset {
            s1.balance(user, asset) - amount
        } else {
            s1.balance(u, a)
        }));
        assert(s1.balance(u, a) == (if u == user && a == asset {
            s0.balance(user, asset) + amount
        } else {
            s0.balance(u, a)
        }));
    }
}

/// A withdrawal is judged safe, while a debt is outstanding, only when the
/// collateral value left after it (the position's value less the withdrawn
/// amount at its price) still covers 110% of the debt.
pub proof fn lemma_safe_withdrawal_keeps_margin(
    state: VaultState,
    user: AccountId,
    amount: int,
    debt: int,
    prices: Seq<i128>,
    asset_price: Option<i128>,
)
    requires
        debt != 0,
        withdrawal_safe_result(state, user, amount, debt, prices, asset_price) == Ok::<bool, crate::vault::errors::VaultError>(true),
    ensures
        asset_price matches Some(p) && collateral_value_result(state, user, prices) matches Ok(total) && total
            - trunc_div(amount * p, 10_000_000) >= trunc_div(debt * 110, 100),
        debt > 0 ==> (asset_price matches Some(p) && collateral_value_result(state, user, prices) matches Ok(total)
            && total - trunc_div(amount * p, 10_000_000) >= debt * 110 / 100),
{
}

/// A withdrawal while a debt is outstanding succeeds only when the
/// collateral value left after it still covers 110% of the debt.
pub proof fn lemma_withdraw_keeps_margin(
    state: VaultState,
    user: AccountId,
    asset: AccountId,
    amount: i128,
    debt: i128,
    prices: Seq<i128>,
    asset_price: Option<i128>,
)
    requires
        debt > 0,
        withdraw_result(state, user, asset, amount, debt, prices, asset_price) is Ok,
    ensures
        asset_price matches Some(p) && collateral_value_result(state, user, prices) matches Ok(total) && total
            - trunc_div(amount * p, 10_000_000) >= debt * 110 / 100,
{
    lemma_safe_withdrawal_keeps_margin(state, user, amount as int, debt as int, prices, asset_price);
}

/// The health factor of a position with a debt weighs its normalised
/// collateral value by the weakest liquidation threshold it holds: it is no
/// larger than the value weighted by the threshold of any asset held with a
/// non-zero balance, and equal to the value weighted by one of them.
pub proof fn lemma_health_uses_weakest_threshold(state: VaultState, user: AccountId, debt: int, prices: Seq<i128>)
    requires
        debt > 0,
        position_health_result(state, user, debt, prices) is Ok,
    ensures
        ({
            let items = state.position_items(user);
            let value = normalized_valuation(state, items, prices, items.len())->Some_0;
            position_health_result(state, user, debt, prices) matches Ok(hf) && {
                &&& forall|i: int|
                    0 <= i < items.len() && #[trigger] items[i].amount != 0 ==> hf <= value * state.config_of(
                        items[i].asset,
                    ).liquidation_threshold_bps / debt
                &&& exists|i: int|
                    0 <= i < items.len() && #[trigger] items[i].amount != 0 && hf == value * state.config_of(
                        items[i].asset,
                    ).liquidation_threshold_bps / debt
            }
        }),
{
    let items = state.position_items(user);
    let value = normalized_valuation(state, items, prices, items.len())->Some_0;
    lemma_min_threshold_is_weakest_held(state, items, items.len());
    let lt = min_threshold(state, items, items.len())->Some_0;
    assert(value >= 0 && value * lt >= 0);
    assert(0 <= value * lt / debt <= value * lt) by (nonlinear_arith)
        requires
            value * lt >= 0,
            debt > 0,
    ;
    assert forall|i: int| 0 <= i < items.len() && #[trigger] items[i].amount != 0 implies value * lt / debt
        <= value * state.config_of(items[i].asset).liquidation_threshold_bps / debt by {
        let li = state.config_of(items[i].asset).liquidation_threshold_bps;
        assert(value * lt / debt <= value * li / debt) by (nonlinear_arith)
            requires
                value >= 0,
                lt <= li,
                debt > 0,
        {
            assert(value * lt <= value * li);
            vstd::arithmetic::div_mod::lemma_div_is_ordered(value * lt, value * li, debt);
        }
    }
}

/// While a debt is outstanding, a withdrawal whose arithmetic does not
/// overflow is judged safe exactly when the collateral value left after it
/// covers 110% of the debt.
pub proof fn lemma_withdrawal_safe_iff_margin(
    state: VaultState,
    user: AccountId,
    amount: int,
    debt: int,
    prices: Seq<i128>,
    asset_price: Option<i128>,
)
    requires
        debt > 0,
        collateral_value_result(state, user, prices) is Ok,
        asset_price is Some,
        crate::common::fits_i128(amount * asset_price->Some_0),
        crate::common::fits_i128(debt * 110),
    ensures
        collateral_value_result(state, user, prices) matches Ok(total) && asset_price matches Some(p) && (
        withdrawal_safe_result(state, user, amount, debt, prices, asset_price) == Ok::<
            bool,
            crate::vault::errors::VaultError,
        >(total - trunc_div(amount * p, 10_000_000) >= debt * 110 / 100)),
{
}

} // verus!
