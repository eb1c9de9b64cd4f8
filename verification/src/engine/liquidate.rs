//! Liquidation arithmetic and planning: when a borrower may be liquidated,
//! how much a liquidator may repay, the bonus, and which collateral pays for
//! it.
use vstd::prelude::*;

use crate::common::{
    ceil_div, ceil_div_spec, checked_pow10, fits_i128, lemma_ceil_div_between, lemma_trunc_div_fits,
    pow10, trunc_div, AccountId, CLOSE_FACTOR_BPS, HEALTHY_HF_BPS,
    LIQUIDATION_BONUS_BPS, MIN_REMAINING_DEBT, PROTOCOL_QUOTE_PRECISION, TARGET_HF_BPS,
};
use crate::engine::errors::EngineError;
use crate::engine::storage::EngineState;
use crate::engine::types::{
    CollateralQuote, CollateralThreshold, LiquidationPlan, LiquidationResult, Seizure,
};

verus! {

/// What `calculate_bonus` returns: 8% of the repaid amount, rounded up.
pub open spec fn bonus_result(repaid: int) -> Result<i128, EngineError> {
    if repaid <= 0 {
        Err(EngineError::InvalidAmount)
    } else if !fits_i128(repaid * (LIQUIDATION_BONUS_BPS as int)) {
        Err(EngineError::Overflow)
    } else {
        Ok(ceil_div_spec(repaid * (LIQUIDATION_BONUS_BPS as int), 10_000) as i128)
    }
}

/// Liquidator bonus on a repaid amount: `ceil(repaid * 800 / 10_000)`.
///
/// Errors: `InvalidAmount` for an amount that is not positive; `Overflow`
/// when the product does not fit.
pub fn calculate_bonus(repaid_amount: i128) -> (r: Result<i128, EngineError>)
    ensures
        r == bonus_result(repaid_amount as int),
{
    if repaid_amount <= 0 {
        return Err(EngineError::InvalidAmount);
    }
    let numerator = match repaid_amount.checked_mul(LIQUIDATION_BONUS_BPS as i128) {
        Some(n) => n,
        None => {
            return Err(EngineError::Overflow);
        },
    };
    proof {
        lemma_ceil_div_between(numerator as int, 10_000);
    }
    match ceil_div(numerator, 10_000) {
        Ok(b) => Ok(b),
        Err(_) => Err(EngineError::Overflow),
    }
}

/// What `value_to_token_amount` returns.
pub open spec fn value_to_token_result(value: int, price: int, token_decimals: int, price_decimals: int) -> Result<i128, EngineError> {
    let exponent = token_decimals + price_decimals;
    if exponent > u32::MAX {
        Err(EngineError::Overflow)
    } else if pow10(exponent as nat) > i128::MAX {
        Err(EngineError::Overflow)
    } else if !fits_i128(value * pow10(exponent as nat)) {
        Err(EngineError::Overflow)
    } else if !fits_i128(PROTOCOL_QUOTE_PRECISION * price) {
        Err(EngineError::Overflow)
    } else if PROTOCOL_QUOTE_PRECISION * price == 0 {
        Err(EngineError::Overflow)
    } else if !fits_i128(ceil_div_spec(value * pow10(exponent as nat), PROTOCOL_QUOTE_PRECISION * price)) {
        Err(EngineError::Overflow)
    } else {
        Ok(ceil_div_spec(value * pow10(exponent as nat), PROTOCOL_QUOTE_PRECISION * price) as i128)
    }
}

/// Converts a quote value into base units of a token priced at `price`
/// (scaled by `10^oracle_price_decimals`), rounding up so that the protocol
/// never takes too little: `ceil(value * 10^(token_decimals +
/// oracle_price_decimals) / (10^7 * price))`. Any failure of the arithmetic,
/// a zero price included, is `Overflow`.
pub fn value_to_token_amount(value: i128, price: i128, token_decimals: u32, oracle_price_decimals: u32) -> (r: Result<i128, EngineError>)
    ensures
        r == value_to_token_result(value as int, price as int, token_decimals as int, oracle_price_decimals as int),
{
    let exponent = match token_decimals.checked_add(oracle_price_decimals) {
        Some(e) => e,
        None => {
            return Err(EngineError::Overflow);
        },
    };
    let scale = match checked_pow10(exponent) {
        Some(s) => s,
        None => {
            return Err(EngineError::Overflow);
        },
    };
    proof {
        crate::common::lemma_pow10_monotone(0, exponent as nat);
    }
    assert(exponent as int == token_decimals + oracle_price_decimals);
    assert(scale as int == pow10((token_decimals + oracle_price_decimals) as nat));
    let numerator = match value.checked_mul(scale) {
        Some(n) => n,
        None => {
            return Err(EngineError::Overflow);
        },
    };
    let denominator = match PROTOCOL_QUOTE_PRECISION.checked_mul(price) {
        Some(d) => d,
        None => {
            return Err(EngineError::Overflow);
        },
    };
    match ceil_div(numerator, denominator) {
        Ok(v) => Ok(v),
        Err(_) => Err(EngineError::Overflow),
    }
}

/// What `token_amount_to_value` returns.
pub open spec fn token_to_value_result(amount: int, price: int, token_decimals: int, price_decimals: int) -> Result<i128, EngineError> {
    let exponent = token_decimals + price_decimals;
    if exponent > u32::MAX {
        Err(EngineError::Overflow)
    } else if pow10(exponent as nat) > i128::MAX {
        Err(EngineError::Overflow)
    } else if !fits_i128(amount * PROTOCOL_QUOTE_PRECISION) {
        Err(EngineError::Overflow)
    } else if !fits_i128(amount * PROTOCOL_QUOTE_PRECISION * price) {
        Err(EngineError::Overflow)
    } else {
        Ok(trunc_div(amount * PROTOCOL_QUOTE_PRECISION * price, pow10(exponent as nat)) as i128)
    }
}

/// Converts base units of a token back into a quote value, rounding toward
/// zero so that a fully seized balance is never credited with more than it
/// is worth: `amount * 10^7 * price / 10^(token_decimals +
/// oracle_price_decimals)`. Any failure of the arithmetic is `Overflow`.
pub fn token_amount_to_value(amount: i128, price: i128, token_decimals: u32, oracle_price_decimals: u32) -> (r: Result<i128, EngineError>)
    ensures
        r == token_to_value_result(amount as int, price as int, token_decimals as int, oracle_price_decimals as int),
{
    let exponent = match token_decimals.checked_add(oracle_price_decimals) {
        Some(e) => e,
        None => {
            return Err(EngineError::Overflow);
        },
    };
    let scale = match checked_pow10(exponent) {
        Some(s) => s,
        None => {
            return Err(EngineError::Overflow);
        },
    };
    let scaled = match amount.checked_mul(PROTOCOL_QUOTE_PRECISION) {
        Some(n) => n,
        None => {
            return Err(EngineError::Overflow);
        },
    };
    let numerator = match scaled.checked_mul(price) {
        Some(n) => n,
        None => {
            return Err(EngineError::Overflow);
        },
    };
    proof {
        crate::common::lemma_pow10_monotone(0, exponent as nat);
        lemma_trunc_div_fits(numerator as int, scale as int);
    }
    match numerator.checked_div(scale) {
        Some(v) => Ok(v),
        None => Err(EngineError::Overflow),
    }
}

/// Whether a borrower with `debt` and `health_factor` (bps) can be
/// liquidated: some debt, and a health factor below 1.00.
pub open spec fn liquidatable(debt: int, health_factor: int) -> bool {
    debt != 0 && health_factor < HEALTHY_HF_BPS
}

/// Whether a borrower whose debt (read from the pool) and health factor
/// (read from the vault) are given can be liquidated.
///
/// Errors: `NotInitialized` when the vault or the pool is not set.
pub fn is_liquidatable(state: &EngineState, debt: i128, health_factor: i128) -> (r: Result<bool, EngineError>)
    ensures
        r == (if state.vault is None || state.pool is None {
            Err(EngineError::NotInitialized)
        } else {
            Ok::<bool, EngineError>(liquidatable(debt as int, health_factor as int))
        }),
{
    if state.get_vault().is_none() || state.get_pool().is_none() {
        return Err(EngineError::NotInitialized);
    }
    if debt == 0 {
        return Ok(false);
    }
    Ok(health_factor < HEALTHY_HF_BPS)
}

/// The smallest liquidation threshold among the first `n` balances that are
/// positive; `None` when there is none.
pub open spec fn min_threshold_upto(items: Seq<CollateralThreshold>, n: int) -> Option<int>
    decreases n,
{
    if n <= 0 {
        None
    } else {
        let prev = min_threshold_upto(items, n - 1);
        let item = items[n - 1];
        if item.amount > 0 {
            match prev {
                None => Some(item.liquidation_threshold_bps as int),
                Some(m) => Some(
                    if (item.liquidation_threshold_bps as int) < m {
                        item.liquidation_threshold_bps as int
                    } else {
                        m
                    },
                ),
            }
        } else {
            prev
        }
    }
}

/// The liquidation threshold that governs a position: the smallest among
/// the assets it holds a positive balance of.
pub open spec fn min_threshold(items: Seq<CollateralThreshold>) -> Option<int> {
    min_threshold_upto(items, items.len() as int)
}

/// The governing threshold exists exactly when some balance is positive, and
/// then belongs to a positive balance and is no larger than any other.
pub proof fn lemma_min_threshold_upto(items: Seq<CollateralThreshold>, n: int)
    requires
        0 <= n <= items.len(),
    ensures
        min_threshold_upto(items, n) is None <==> (forall|i: int| 0 <= i < n ==> items[i].amount <= 0),
        min_threshold_upto(items, n) matches Some(m) ==> (
            (exists|i: int| 0 <= i < n && items[i].amount > 0 && items[i].liquidation_threshold_bps == m)
            && (forall|i: int| 0 <= i < n && items[i].amount > 0 ==> m <= items[i].liquidation_threshold_bps)),
    decreases n,
{
    if n > 0 {
        lemma_min_threshold_upto(items, n - 1);
    }
}

/// What the repayment formula gives once the governing threshold `lt` is
/// known.
pub open spec fn capped_repayment(debt: int, collateral_value: int, lt: int) -> Result<i128, EngineError> {
    let target_debt = TARGET_HF_BPS * debt;
    let weighted = collateral_value * lt;
    let numerator = target_debt - weighted;
    let denominator = TARGET_HF_BPS - ceil_div_spec((10_000 + LIQUIDATION_BONUS_BPS) * lt, 10_000);
    if !fits_i128(target_debt) || !fits_i128(weighted) || !fits_i128(numerator) {
        Err(EngineError::Overflow)
    } else if denominator <= 0 {
        Ok(debt as i128)
    } else {
        let solved = ceil_div_spec(numerator, denominator);
        let close_product = debt * (CLOSE_FACTOR_BPS as int);
        if !fits_i128(close_product) {
            Err(EngineError::Overflow)
        } else {
            let close_factor = trunc_div(close_product, 10_000);
            let capped = if solved > close_factor { close_factor } else { solved };
            let repay = if capped > debt { debt } else { capped };
            let seized_product = repay * (10_000 + LIQUIDATION_BONUS_BPS);
            let remaining_value = collateral_value - trunc_div(seized_product, 10_000);
            let remaining_debt = debt - repay;
            if !fits_i128(seized_product) || !fits_i128(remaining_value) || !fits_i128(remaining_debt) {
                Err(EngineError::Overflow)
            } else if remaining_debt != 0 && !fits_i128(remaining_value * lt) {
                Err(EngineError::Overflow)
            } else {
                let post_hf = if remaining_debt == 0 {
                    i128::MAX as int
                } else {
                    trunc_div(remaining_value * lt, remaining_debt)
                };
                if post_hf < HEALTHY_HF_BPS {
                    Ok(debt as i128)
                } else if remaining_debt > 0 && remaining_debt < MIN_REMAINING_DEBT {
                    Ok(debt as i128)
                } else {
                    Ok(repay as i128)
                }
            }
        }
    }
}

/// What `calculate_partial_repayment` returns.
pub open spec fn partial_repayment_result(
    state: EngineState,
    debt: int,
    collateral_value: int,
    health_factor: int,
    thresholds: Seq<CollateralThreshold>,
) -> Result<i128, EngineError> {
    if state.vault is None || state.pool is None {
        Err(EngineError::NotInitialized)
    } else if debt == 0 {
        Err(EngineError::NoPosition)
    } else if health_factor >= HEALTHY_HF_BPS {
        Err(EngineError::NotLiquidatable)
    } else {
        match min_threshold(thresholds) {
            None => Err(EngineError::NoPosition),
            Some(lt) => capped_repayment(debt, collateral_value, lt),
        }
    }
}

/// The governing threshold of the balances, `i128::MAX` when none is
/// positive.
fn lowest_threshold(thresholds: &Vec<CollateralThreshold>) -> (r: i128)
    ensures
        r == (match min_threshold(thresholds@) {
            None => i128::MAX as int,
            Some(m) => m,
        }),
        min_threshold(thresholds@) matches Some(m) ==> 0 <= m <= u32::MAX,
{
    let mut min_lt: i128 = i128::MAX;
    let mut i: usize = 0;
    while i < thresholds.len()
        invariant
            i <= thresholds.len(),
            min_lt == (match min_threshold_upto(thresholds@, i as int) {
                None => i128::MAX as int,
                Some(m) => m,
            }),
            min_threshold_upto(thresholds@, i as int) matches Some(m) ==> 0 <= m <= u32::MAX,
        decreases thresholds.len() - i,
    {
        let item = thresholds[i];
        if item.amount > 0 {
            let lt = item.liquidation_threshold_bps as i128;
            if lt < min_lt {
                min_lt = lt;
            }
        }
        i = i + 1;
    }
    min_lt
}

/// How much of a liquidatable borrower's debt one liquidation may repay,
/// given the debt (read from the pool), the collateral value and health
/// factor (read from the vault) and each collateral balance with its
/// asset's liquidation threshold.
///
/// The repayment `R` solves for a post-liquidation health factor of 1.10
/// after `R` plus the 8% bonus is seized, under the smallest threshold
/// among the assets held: `R = ceil((11_000 * debt - value * lt) / (11_000
/// - ceil(10_800 * lt / 10_000)))`, capped at half the debt and at the
/// debt. The whole debt is repayable instead when no such `R` exists, when
/// repaying `R` would still leave the position unhealthy, or when it would
/// leave less than the minimum debt outstanding.
///
/// Errors: `NotInitialized` when the vault or the pool is not set;
/// `NoPosition` without debt or without a positive collateral balance;
/// `NotLiquidatable` for a health factor of 1.00 or more; `Overflow`.
pub fn calculate_partial_repayment(
    state: &EngineState,
    debt: i128,
    collateral_value: i128,
    health_factor: i128,
    thresholds: &Vec<CollateralThreshold>,
) -> (r: Result<i128, EngineError>)
    ensures
        r == partial_repayment_result(*state, debt as int, collateral_value as int, health_factor as int, thresholds@),
{
    if state.get_vault().is_none() || state.get_pool().is_none() {
        return Err(EngineError::NotInitialized);
    }
    if debt == 0 {
        return Err(EngineError::NoPosition);
    }
    if health_factor >= HEALTHY_HF_BPS {
        return Err(EngineError::NotLiquidatable);
    }
    let lt = lowest_threshold(thresholds);
    if lt == i128::MAX {
        return Err(EngineError::NoPosition);
    }
    repayment_for_threshold(debt, collateral_value, lt)
}

/// The repayment once the governing threshold is known.
fn repayment_for_threshold(debt: i128, collateral_value: i128, lt: i128) -> (r: Result<i128, EngineError>)
    requires
        0 <= lt <= u32::MAX,
    ensures
        r == capped_repayment(debt as int, collateral_value as int, lt as int),
{
    let target_debt = match TARGET_HF_BPS.checked_mul(debt) {
        Some(v) => v,
        None => {
            return Err(EngineError::Overflow);
        },
    };
    let weighted = match collateral_value.checked_mul(lt) {
        Some(v) => v,
        None => {
            return Err(EngineError::Overflow);
        },
    };
    let numerator = match target_debt.checked_sub(weighted) {
        Some(v) => v,
        None => {
            return Err(EngineError::Overflow);
        },
    };
    assert(0 <= 10_800 * lt <= 10_800 * 0xffff_ffff) by (nonlinear_arith)
        requires
            0 <= lt <= 0xffff_ffff,
    ;
    let bonus_weighted = (10_000i128 + LIQUIDATION_BONUS_BPS as i128) * lt;
    proof {
        lemma_ceil_div_between(bonus_weighted as int, 10_000);
    }
    let bonus_share = match ceil_div(bonus_weighted, 10_000) {
        Ok(v) => v,
        Err(_) => {
            return Err(EngineError::Overflow);
        },
    };
    let denominator = TARGET_HF_BPS - bonus_share;
    if denominator <= 0 {
        return Ok(debt);
    }
    proof {
        lemma_ceil_div_between(numerator as int, denominator as int);
    }
    let mut repay = match ceil_div(numerator, denominator) {
        Ok(v) => v,
        Err(_) => {
            return Err(EngineError::Overflow);
        },
    };
    let close_product = match debt.checked_mul(CLOSE_FACTOR_BPS as i128) {
        Some(v) => v,
        None => {
            return Err(EngineError::Overflow);
        },
    };
    proof {
        lemma_trunc_div_fits(close_product as int, 10_000);
    }
    let close_factor = match close_product.checked_div(10_000) {
        Some(v) => v,
        None => {
            return Err(EngineError::Overflow);
        },
    };
    if repay > close_factor {
        repay = close_factor;
    }
    if repay > debt {
        repay = debt;
    }
    let seized_product = match repay.checked_mul(10_000i128 + LIQUIDATION_BONUS_BPS as i128) {
        Some(v) => v,
        None => {
            return Err(EngineError::Overflow);
        },
    };
    proof {
        lemma_trunc_div_fits(seized_product as int, 10_000);
    }
    let seized_value = match seized_product.checked_div(10_000) {
        Some(v) => v,
        None => {
            return Err(EngineError::Overflow);
        },
    };
    let remaining_value = match collateral_value.checked_sub(seized_value) {
        Some(v) => v,
        None => {
            return Err(EngineError::Overflow);
        },
    };
    let remaining_debt = match debt.checked_sub(repay) {
        Some(v) => v,
        None => {
            return Err(EngineError::Overflow);
        },
    };
    let post_hf = if remaining_debt == 0 {
        i128::MAX
    } else {
        let weighted_rest = match remaining_value.checked_mul(lt) {
            Some(v) => v,
            None => {
                return Err(EngineError::Overflow);
            },
        };
        proof {
            lemma_trunc_div_fits(weighted_rest as int, remaining_debt as int);
        }
        match weighted_rest.checked_div(remaining_debt) {
            Some(v) => v,
            None => {
                return Err(EngineError::Overflow);
            },
        }
    };
    if post_hf < HEALTHY_HF_BPS {
        return Ok(debt);
    }
    if remaining_debt > 0 && remaining_debt < MIN_REMAINING_DEBT {
        return Ok(debt);
    }
    Ok(repay)
}

/// Index of the largest positive balance among the first `n` items, the
/// earliest one on a tie; `None` when none of them is positive.
pub open spec fn largest_upto(items: Seq<CollateralQuote>, n: int) -> Option<int>
    decreases n,
{
    if n <= 0 {
        None
    } else {
        let prev = largest_upto(items, n - 1);
        let best = match prev {
            Some(k) => items[k].amount as int,
            None => 0,
        };
        if items[n - 1].amount > best {
            Some(n - 1)
        } else {
            prev
        }
    }
}

/// The chosen balance is positive, no other balance is larger, and no
/// earlier balance is as large.
pub proof fn lemma_largest_upto(items: Seq<CollateralQuote>, n: int)
    requires
        0 <= n <= items.len(),
    ensures
        largest_upto(items, n) is None <==> (forall|i: int| 0 <= i < n ==> items[i].amount <= 0),
        largest_upto(items, n) matches Some(k) ==> {
            &&& 0 <= k < n
            &&& items[k].amount > 0
            &&& forall|i: int| 0 <= i < n ==> items[i].amount <= items[k].amount
            &&& forall|i: int| 0 <= i < k ==> items[i].amount < items[k].amount
        },
    decreases n,
{
    if n > 0 {
        lemma_largest_upto(items, n - 1);
    }
}

/// One round of seizure against `remaining` quote value: the largest
/// balance is priced; if it covers the rest, just enough of it is taken and
/// nothing remains; otherwise all of it is taken and its value (rounded
/// down) is deducted. The balance is then spent. Gives the balances after
/// the round, the value still to seize, and what was taken (nothing when
/// the amount is not positive).
pub open spec fn seize_step(items: Seq<CollateralQuote>, remaining: int) -> Result<(Seq<CollateralQuote>, int, Option<Seizure>), EngineError> {
    match largest_upto(items, items.len() as int) {
        None => Err(EngineError::InvalidAmount),
        Some(k) => {
            let q = items[k];
            let spent = items.update(k, CollateralQuote { amount: 0, ..q });
            match value_to_token_result(remaining, q.price as int, q.token_decimals as int, q.oracle_price_decimals as int) {
                Err(e) => Err(e),
                Ok(needed) => if q.amount >= needed {
                    Ok((spent, 0, if needed > 0 { Some(Seizure { asset: q.asset, amount: needed }) } else { None }))
                } else {
                    match token_to_value_result(q.amount as int, q.price as int, q.token_decimals as int, q.oracle_price_decimals as int) {
                        Err(e) => Err(e),
                        Ok(covered) => if !fits_i128(remaining - covered) {
                            Err(EngineError::Overflow)
                        } else {
                            Ok((spent, remaining - covered, if q.amount > 0 { Some(Seizure { asset: q.asset, amount: q.amount }) } else { None }))
                        },
                    }
                },
            }
        },
    }
}

/// Up to `rounds` rounds of seizure until nothing remains; what is still
/// owed after the last round is an `InvalidAmount` error.
pub open spec fn seize_rounds(items: Seq<CollateralQuote>, remaining: int, rounds: nat) -> Result<Seq<Seizure>, EngineError>
    decreases rounds,
{
    if rounds == 0 || remaining <= 0 {
        if remaining > 0 {
            Err(EngineError::InvalidAmount)
        } else {
            Ok(Seq::empty())
        }
    } else {
        match seize_step(items, remaining) {
            Err(e) => Err(e),
            Ok((next, rest, taken)) => match seize_rounds(next, rest, (rounds - 1) as nat) {
                Err(e) => Err(e),
                Ok(later) => Ok(
                    match taken {
                        Some(t) => seq![t] + later,
                        None => later,
                    },
                ),
            },
        }
    }
}

/// The seizures that pay `value` out of a borrower's collateral: one round
/// per balance at most, largest balance first.
pub open spec fn seizure_plan(collateral: Seq<CollateralQuote>, value: int) -> Result<Seq<Seizure>, EngineError> {
    seize_rounds(collateral, value, collateral.len())
}

/// `done` followed by the outcome of the rounds still to run.
pub open spec fn after(done: Seq<Seizure>, outcome: Result<Seq<Seizure>, EngineError>) -> Result<Seq<Seizure>, EngineError> {
    match outcome {
        Ok(later) => Ok(done + later),
        Err(e) => Err(e),
    }
}

/// Index of the largest positive balance, earliest on a tie.
fn largest_balance(items: &Vec<CollateralQuote>) -> (r: Option<usize>)
    ensures
        r matches Some(k) ==> largest_upto(items@, items.len() as int) == Some(k as int),
        r is None ==> largest_upto(items@, items.len() as int) is None,
{
    let mut best: Option<usize> = None;
    let mut best_amount: i128 = 0;
    let mut i: usize = 0;
    while i < items.len()
        invariant
            i <= items.len(),
            best matches Some(k) ==> largest_upto(items@, i as int) == Some(k as int) && k < i && best_amount == items@[k as int].amount,
            best is None ==> largest_upto(items@, i as int) is None && best_amount == 0,
        decreases items.len() - i,
    {
        if items[i].amount > best_amount {
            best_amount = items[i].amount;
            best = Some(i);
        }
        i = i + 1;
    }
    best
}

/// Seizes collateral worth `value` quote units: repeatedly takes the
/// largest remaining balance, converting `value` into its token units
/// rounded up; a balance that covers the rest gives exactly that amount,
/// one that does not is taken whole and its value, rounded down, deducted.
///
/// Errors: `InvalidAmount` when no positive balance is left or the balances
/// do not cover `value`; `Overflow` from the conversions.
pub fn plan_seizure(collateral: &Vec<CollateralQuote>, value: i128) -> (r: Result<Vec<Seizure>, EngineError>)
    ensures
        match r {
            Ok(v) => seizure_plan(collateral@, value as int) == Ok::<Seq<Seizure>, EngineError>(v@),
            Err(e) => seizure_plan(collateral@, value as int) == Err::<Seq<Seizure>, EngineError>(e),
        },
{
    let mut items = collateral.clone();
    let mut remaining = value;
    let mut taken: Vec<Seizure> = Vec::new();
    let len = items.len();
    let mut round: usize = 0;
    assert(items@ == collateral@);
    assert(after(taken@, seize_rounds(items@, remaining as int, (len - round) as nat)) =~= seizure_plan(collateral@, value as int)) by {
        assert(taken@ == Seq::<Seizure>::empty());
        match seize_rounds(items@, remaining as int, len as nat) {
            Ok(later) => {
                assert(taken@ + later =~= later);
            },
            Err(_) => {},
        }
    }
    while round < len && remaining > 0
        invariant
            round <= len,
            items.len() == len,
            after(taken@, seize_rounds(items@, remaining as int, (len - round) as nat)) == seizure_plan(collateral@, value as int),
        decreases len - round,
    {
        let ghost before_items = items@;
        let ghost before_remaining = remaining as int;
        let ghost before_taken = taken@;
        let k = match largest_balance(&items) {
            Some(k) => k,
            None => {
                return Err(EngineError::InvalidAmount);
            },
        };
        proof {
            lemma_largest_upto(items@, items.len() as int);
        }
        let q = items[k];
        let needed = match value_to_token_amount(remaining, q.price, q.token_decimals, q.oracle_price_decimals) {
            Ok(v) => v,
            Err(e) => {
                return Err(e);
            },
        };
        let amount = if q.amount >= needed {
            remaining = 0;
            needed
        } else {
            let covered = match token_amount_to_value(q.amount, q.price, q.token_decimals, q.oracle_price_decimals) {
                Ok(v) => v,
                Err(e) => {
                    return Err(e);
                },
            };
            remaining = match remaining.checked_sub(covered) {
                Some(v) => v,
                None => {
                    return Err(EngineError::Overflow);
                },
            };
            q.amount
        };
        items.set(k, CollateralQuote { amount: 0, ..q });
        if amount > 0 {
            taken.push(Seizure { asset: q.asset, amount });
        }
        proof {
            let step = seize_step(before_items, before_remaining);
            assert(step matches Ok((next, rest, t)) && next == items@ && rest == remaining as int);
            let later = seize_rounds(items@, remaining as int, (len - round - 1) as nat);
            assert(seize_rounds(before_items, before_remaining, (len - round) as nat) == match later {
                Err(e) => Err(e),
                Ok(l) => Ok::<Seq<Seizure>, EngineError>(
                    if amount > 0 {
                        seq![Seizure { asset: q.asset, amount }] + l
                    } else {
                        l
                    },
                ),
            });
            match later {
                Ok(l) => {
                    if amount > 0 {
                        assert(before_taken + (seq![Seizure { asset: q.asset, amount }] + l) =~= taken@ + l);
                    } else {
                        assert(taken@ == before_taken);
                    }
                },
                Err(_) => {},
            }
        }
        round = round + 1;
    }
    if remaining > 0 {
        return Err(EngineError::InvalidAmount);
    }
    assert(seize_rounds(items@, remaining as int, (len - round) as nat) == Ok::<Seq<Seizure>, EngineError>(Seq::empty()));
    assert(taken@ + Seq::<Seizure>::empty() =~= taken@);
    Ok(taken)
}

/// What a liquidation does once the debt to repay is fixed: the bonus, the
/// seized value, and the seizures that pay it.
pub open spec fn settle(user: AccountId, repay: int, borrow_asset: AccountId, collateral: Seq<CollateralQuote>) -> Result<(LiquidationResult, AccountId, Seq<Seizure>), EngineError> {
    match bonus_result(repay) {
        Err(e) => Err(e),
        Ok(bonus) => if !fits_i128(repay + bonus) {
            Err(EngineError::Overflow)
        } else {
            match seizure_plan(collateral, repay + bonus) {
                Err(e) => Err(e),
                Ok(seizures) => Ok(
                    (
                        LiquidationResult { user, repaid: repay as i128, seized: (repay + bonus) as i128, bonus },
                        borrow_asset,
                        seizures,
                    ),
                ),
            }
        },
    }
}

/// What `liquidate` returns: the result, the borrow asset and the
/// seizures.
pub open spec fn liquidation_outcome(
    state: EngineState,
    engine: AccountId,
    liquidator: AccountId,
    user: AccountId,
    max_repay_amount: int,
    registered_engine: Option<AccountId>,
    debt: int,
    collateral_value: int,
    health_factor: int,
    thresholds: Seq<CollateralThreshold>,
    borrow_asset: Option<AccountId>,
    collateral: Seq<CollateralQuote>,
) -> Result<(LiquidationResult, AccountId, Seq<Seizure>), EngineError> {
    if liquidator == user {
        Err(EngineError::Unauthorized)
    } else if max_repay_amount <= 0 {
        Err(EngineError::InvalidAmount)
    } else if state.vault is None || state.pool is None || state.oracle is None {
        Err(EngineError::NotInitialized)
    } else if registered_engine != Some(engine) {
        Err(EngineError::Unauthorized)
    } else if !liquidatable(debt, health_factor) {
        Err(EngineError::NotLiquidatable)
    } else {
        match partial_repayment_result(state, debt, collateral_value, health_factor, thresholds) {
            Err(e) => Err(e),
            Ok(max_partial) => {
                let repay = if max_repay_amount < max_partial { max_repay_amount } else { max_partial as int };
                match borrow_asset {
                    None => Err(EngineError::NotInitialized),
                    Some(asset) => settle(user, repay, asset, collateral),
                }
            },
        }
    }
}

/// Plans the liquidation of `user` by `liquidator` (who authorises it),
/// repaying at most `max_repay_amount`, from what the engine reads: the
/// engine registered with the vault, the user's debt, collateral value,
/// health factor and balances with their thresholds, the pool's borrow
/// asset, and the balances with their prices.
///
/// The liquidator repays the smaller of `max_repay_amount` and the
/// partial-repayment limit, in the borrow asset, and receives collateral
/// worth that plus the 8% bonus, taken largest balance first.
///
/// Errors: `Unauthorized` when the liquidator is the user or the vault does
/// not name this engine as its liquidator; `InvalidAmount` for a maximum
/// that is not positive, a repayment that is not positive, or collateral
/// that does not cover the seized value; `NotInitialized` when the vault,
/// pool, oracle or borrow asset is not set; `NotLiquidatable`; and the
/// errors of `calculate_partial_repayment`.
pub fn liquidate(
    state: &EngineState,
    engine: AccountId,
    liquidator: AccountId,
    user: AccountId,
    max_repay_amount: i128,
    registered_engine: Option<AccountId>,
    debt: i128,
    collateral_value: i128,
    health_factor: i128,
    thresholds: &Vec<CollateralThreshold>,
    borrow_asset: Option<AccountId>,
    collateral: &Vec<CollateralQuote>,
) -> (r: Result<LiquidationPlan, EngineError>)
    ensures
        liquidation_outcome(*state, engine, liquidator, user, max_repay_amount as int, registered_engine, debt as int,
            collateral_value as int, health_factor as int, thresholds@, borrow_asset, collateral@) == (match r {
            Ok(plan) => Ok::<(LiquidationResult, AccountId, Seq<Seizure>), EngineError>((plan.result, plan.borrow_asset, plan.seizures@)),
            Err(e) => Err(e),
        }),
{
    if liquidator == user {
        return Err(EngineError::Unauthorized);
    }
    if max_repay_amount <= 0 {
        return Err(EngineError::InvalidAmount);
    }
    if state.get_vault().is_none() || state.get_pool().is_none() || state.get_oracle().is_none() {
        return Err(EngineError::NotInitialized);
    }
    match registered_engine {
        Some(e) => {
            if e != engine {
                return Err(EngineError::Unauthorized);
            }
        },
        None => {
            return Err(EngineError::Unauthorized);
        },
    }
    match is_liquidatable(state, debt, health_factor) {
        Ok(true) => {},
        Ok(false) => {
            return Err(EngineError::NotLiquidatable);
        },
        Err(e) => {
            return Err(e);
        },
    }
    let max_partial = match calculate_partial_repayment(state, debt, collateral_value, health_factor, thresholds) {
        Ok(v) => v,
        Err(e) => {
            return Err(e);
        },
    };
    let repay = if max_repay_amount < max_partial { max_repay_amount } else { max_partial };
    let asset = match borrow_asset {
        Some(a) => a,
        None => {
            return Err(EngineError::NotInitialized);
        },
    };
    let bonus = match calculate_bonus(repay) {
        Ok(b) => b,
        Err(e) => {
            return Err(e);
        },
    };
    let seized = match repay.checked_add(bonus) {
        Some(v) => v,
        None => {
            return Err(EngineError::Overflow);
        },
    };
    let seizures = match plan_seizure(collateral, seized) {
        Ok(v) => v,
        Err(e) => {
            return Err(e);
        },
    };
    Ok(LiquidationPlan { result: LiquidationResult { user, repaid: repay, seized, bonus }, borrow_asset: asset, seizures })
}

} // verus!
