//! Properties of the liquidation arithmetic and of liquidation plans.
use vstd::prelude::*;

use crate::common::{
    ceil_div_spec, lemma_ceil_div_between, lemma_trunc_div_rem, pow10, trunc_div, trunc_rem,
    AccountId, CLOSE_FACTOR_BPS, HEALTHY_HF_BPS, LIQUIDATION_BONUS_BPS, MIN_REMAINING_DEBT,
    PROTOCOL_QUOTE_PRECISION,
};
use crate::engine::errors::EngineError;
use crate::engine::liquidate::{
    bonus_result, largest_upto, lemma_largest_upto, liquidation_outcome, min_threshold, partial_repayment_result,
    seize_rounds, seize_step, seizure_plan, token_to_value_result, value_to_token_result,
};
use crate::engine::storage::EngineState;
use crate::engine::types::{CollateralQuote, CollateralThreshold, Seizure};

verus! {

/// The ceiling of `a / b` for `b > 0` is the least `q` with `q * b >= a`.
proof fn lemma_ceil_is_least(a: int, b: int)
    requires
        b > 0,
    ensures
        ceil_div_spec(a, b) * b >= a,
        (ceil_div_spec(a, b) - 1) * b < a,
{
    vstd::arithmetic::div_mod::lemma_fundamental_div_mod(-a, b);
    vstd::arithmetic::div_mod::lemma_mod_bound(-a, b);
    let q = (-a) / b;
    assert(ceil_div_spec(a, b) == -q);
    assert((-q) * b >= a && (-q - 1) * b < a) by (nonlinear_arith)
        requires
            -a == b * q + (-a) % b,
            0 <= (-a) % b < b,
    ;
}

/// The liquidation bonus is 8% of the repaid amount rounded up: the least
/// amount worth at least 8% of it.
pub proof fn lemma_bonus_rounds_up(repaid: int)
    requires
        bonus_result(repaid) is Ok,
    ensures
        bonus_result(repaid) matches Ok(bonus) && bonus * 10_000 >= repaid * 800 && (bonus - 1) * 10_000 < repaid * 800,
        bonus_result(repaid) matches Ok(bonus) && 0 < bonus <= repaid,
{
    lemma_ceil_is_least(repaid * 800, 10_000);
    lemma_ceil_div_between(repaid * 800, 10_000);
    let b = ceil_div_spec(repaid * 800, 10_000);
    assert(0 < b <= repaid) by (nonlinear_arith)
        requires
            (b - 1) * 10_000 < repaid * 800,
            b * 10_000 >= repaid * 800,
            repaid >= 1,
    ;
}

/// Converting a value into token units never under-seizes: the tokens
/// returned are worth at least the value, and one token fewer would not
/// be (for a positive price).
pub proof fn lemma_value_to_token_never_under_seizes(value: int, price: int, token_decimals: u32, price_decimals: u32)
    requires
        price > 0,
        value_to_token_result(value, price, token_decimals as int, price_decimals as int) is Ok,
    ensures
        value_to_token_result(value, price, token_decimals as int, price_decimals as int) matches Ok(t) && {
            &&& t * (PROTOCOL_QUOTE_PRECISION * price) >= value * pow10((token_decimals + price_decimals) as nat)
            &&& (t - 1) * (PROTOCOL_QUOTE_PRECISION * price) < value * pow10((token_decimals + price_decimals) as nat)
        },
{
    assert(PROTOCOL_QUOTE_PRECISION * price > 0) by (nonlinear_arith)
        requires
            price > 0,
    ;
    lemma_ceil_is_least(value * pow10((token_decimals + price_decimals) as nat), PROTOCOL_QUOTE_PRECISION * price);
}

/// Converting token units back into a value never over-credits them: for
/// a non-negative amount and price the value returned, scaled back, is no
/// more than what the tokens are worth.
pub proof fn lemma_token_to_value_never_over_credits(amount: int, price: int, token_decimals: u32, price_decimals: u32)
    requires
        amount >= 0,
        price >= 0,
        token_to_value_result(amount, price, token_decimals as int, price_decimals as int) is Ok,
    ensures
        token_to_value_result(amount, price, token_decimals as int, price_decimals as int) matches Ok(v)
            && 0 <= v * pow10((token_decimals + price_decimals) as nat) <= amount * PROTOCOL_QUOTE_PRECISION * price,
{
    let scale = pow10((token_decimals + price_decimals) as nat);
    let worth = amount * PROTOCOL_QUOTE_PRECISION * price;
    crate::common::lemma_pow10_monotone(0, (token_decimals + price_decimals) as nat);
    assert(worth >= 0) by (nonlinear_arith)
        requires
            amount >= 0,
            price >= 0,
            worth == amount * PROTOCOL_QUOTE_PRECISION * price,
    ;
    lemma_trunc_div_rem(worth, scale);
    assert(trunc_div(worth, scale) * scale <= worth);
    assert(trunc_div(worth, scale) * scale >= 0) by (nonlinear_arith)
        requires
            trunc_div(worth, scale) >= 0 || worth == 0,
            scale > 0,
            worth >= 0,
            trunc_div(worth, scale) * scale <= worth,
            trunc_div(worth, scale) * scale + (worth - trunc_div(worth, scale) * scale) == worth,
    ;
}

/// A partial liquidation never repays more than the debt; it repays at
/// most half the debt (the close factor) unless it repays all of it; it
/// never leaves less than the minimum debt outstanding, other than
/// nothing; and a repayment short of the whole debt leaves the borrower
/// healthy (health factor of at least 1.00 after the seizure).
pub proof fn lemma_partial_repayment_bounds(
    state: EngineState,
    debt: int,
    collateral_value: int,
    health_factor: int,
    thresholds: Seq<CollateralThreshold>,
)
    requires
        partial_repayment_result(state, debt, collateral_value, health_factor, thresholds) matches Ok(_),
    ensures
        partial_repayment_result(state, debt, collateral_value, health_factor, thresholds) matches Ok(r) && {
            &&& r <= debt
            &&& r == debt || r <= trunc_div(debt * (CLOSE_FACTOR_BPS as int), 10_000)
            &&& debt - r == 0 || debt - r >= MIN_REMAINING_DEBT
            &&& r != debt ==> (min_threshold(thresholds) matches Some(lt) && trunc_div(
                (collateral_value - trunc_div(r * (10_000 + LIQUIDATION_BONUS_BPS), 10_000)) * lt,
                debt - r,
            ) >= HEALTHY_HF_BPS)
        },
{
}

/// Seizing a repayment `s` with its 8% bonus out of a collateral value
/// whose weighted value is covered as the 1.10 target asks leaves a health
/// factor of at least 1.00 on the debt still outstanding.
proof fn lemma_target_repayment_restores_health(collateral_value: int, debt: int, lt: int, c: int, s: int)
    requires
        0 <= lt <= 10_000,
        c * 10_000 >= 10_800 * lt,
        (c - 1) * 10_000 < 10_800 * lt,
        s * (11_000 - c) >= 11_000 * debt - collateral_value * lt,
        debt >= 10_000_000,
        debt - s > 0,
    ensures
        (collateral_value - trunc_div(s * 10_800, 10_000)) * lt >= 10_000 * (debt - s),
{
    let seized = trunc_div(s * 10_800, 10_000);
    lemma_trunc_div_rem(s * 10_800, 10_000);
    let rem = trunc_rem(s * 10_800, 10_000);
    assert(seized * 10_000 + rem == s * 10_800);
    if s >= 0 {
        assert(s * 10_800 >= 0) by (nonlinear_arith)
            requires
                s >= 0,
        ;
        assert(seized * lt * 10_000 <= s * 10_800 * lt) by (nonlinear_arith)
            requires
                seized * 10_000 <= s * 10_800,
                lt >= 0,
        ;
        assert(s * 10_800 * lt <= s * c * 10_000) by (nonlinear_arith)
            requires
                10_800 * lt <= c * 10_000,
                s >= 0,
        ;
        assert(seized * lt <= s * c);
        assert((collateral_value - seized) * lt >= 10_000 * (debt - s)) by (nonlinear_arith)
            requires
                seized * lt <= s * c,
                s * (11_000 - c) >= 11_000 * debt - collateral_value * lt,
                debt - s > 0,
        ;
    } else {
        assert(s * 10_800 < 0) by (nonlinear_arith)
            requires
                s < 0,
        ;
        assert(seized * 10_000 <= s * 10_800 + 9_999);
        assert(seized * lt * 10_000 <= s * 10_800 * lt + 9_999 * lt) by (nonlinear_arith)
            requires
                seized * 10_000 <= s * 10_800 + 9_999,
                lt >= 0,
        ;
        assert(c * 10_000 <= 10_800 * lt + 9_999);
        assert(s * c * 10_000 >= s * 10_800 * lt + 9_999 * s) by (nonlinear_arith)
            requires
                c * 10_000 <= 10_800 * lt + 9_999,
                s < 0,
        ;
        assert(seized * lt - s * c <= lt - s);
        assert((collateral_value - seized) * lt >= 10_000 * (debt - s)) by (nonlinear_arith)
            requires
                seized * lt - s * c <= lt - s,
                s * (11_000 - c) >= 11_000 * debt - collateral_value * lt,
                s < 0,
                debt >= 10_000_000,
                lt <= 10_000,
        ;
    }
}

/// The close factor caps a partial liquidation: whenever repaying the
/// close factor (half the debt, rounded down) and seizing it with its 8%
/// bonus would leave the borrower at a health factor of at least 1.00 under
/// the governing threshold, with at least the minimum debt outstanding,
/// the repayment allowed is no more than the close factor. The whole debt
/// is repayable only when no capped repayment restores health.
pub proof fn lemma_close_factor_caps_repayment(
    state: EngineState,
    debt: int,
    collateral_value: int,
    health_factor: int,
    thresholds: Seq<CollateralThreshold>,
)
    requires
        partial_repayment_result(state, debt, collateral_value, health_factor, thresholds) is Ok,
        min_threshold(thresholds) matches Some(lt) && lt <= 10_000 && {
            let close_factor = debt * 5_000 / 10_000;
            &&& debt - close_factor >= 10_000_000
            &&& (collateral_value - close_factor * 10_800 / 10_000) * lt >= 10_000 * (debt - close_factor)
        },
    ensures
        partial_repayment_result(state, debt, collateral_value, health_factor, thresholds) matches Ok(r) && r <= debt
            * 5_000 / 10_000,
{
    let lt = min_threshold(thresholds)->Some_0;
    crate::engine::liquidate::lemma_min_threshold_upto(thresholds, thresholds.len() as int);
    assert(lt >= 0);
    let cf = debt * 5_000 / 10_000;
    assert(debt >= 10_000_000);
    assert(cf == trunc_div(debt * (CLOSE_FACTOR_BPS as int), 10_000));
    assert(0 <= cf <= debt);
    let c = ceil_div_spec((10_000 + LIQUIDATION_BONUS_BPS) * lt, 10_000);
    lemma_ceil_is_least(10_800 * lt, 10_000);
    assert(c <= 10_800);
    let den = 11_000 - c;
    let num = 11_000 * debt - collateral_value * lt;
    lemma_ceil_is_least(num, den);
    let solved = ceil_div_spec(num, den);
    if solved > cf {
        assert(trunc_div(cf * 10_800, 10_000) == cf * 10_800 / 10_000);
        let rv = collateral_value - cf * 10_800 / 10_000;
        let rd = debt - cf;
        assert(trunc_div(rv * lt, rd) >= 10_000) by (nonlinear_arith)
            requires
                rv * lt >= 10_000 * rd,
                rd > 0,
        ;
    } else {
        let rd = debt - solved;
        lemma_target_repayment_restores_health(collateral_value, debt, lt, c, solved);
        let rv = collateral_value - trunc_div(solved * 10_800, 10_000);
        assert(trunc_div(rv * lt, rd) >= 10_000) by (nonlinear_arith)
            requires
                rv * lt >= 10_000 * rd,
                rd > 0,
        ;
    }
}

/// Short of the whole debt, a partial liquidation repays the least amount
/// `R` that meets the 1.10 target under the governing threshold `lt`,
/// `R * (11_000 - ceil(10_800 * lt / 10_000)) >= 11_000 * debt - value * lt`,
/// unless that exceeds the close factor, which then caps it: one less than
/// the repayment never meets the target, and a repayment below the close
/// factor always does.
pub proof fn lemma_partial_repayment_is_least_to_target(
    state: EngineState,
    debt: int,
    collateral_value: int,
    health_factor: int,
    thresholds: Seq<CollateralThreshold>,
)
    requires
        debt > 0,
        partial_repayment_result(state, debt, collateral_value, health_factor, thresholds) is Ok,
        min_threshold(thresholds) matches Some(lt) && lt <= 10_000,
    ensures
        partial_repayment_result(state, debt, collateral_value, health_factor, thresholds) matches Ok(r)
            && min_threshold(thresholds) matches Some(lt) && (r != debt ==> {
            let den = 11_000 - ceil_div_spec(10_800 * lt, 10_000);
            let target = 11_000 * debt - collateral_value * lt;
            &&& (r - 1) * den < target
            &&& r < debt * 5_000 / 10_000 ==> r * den >= target
        }),
{
    let lt = min_threshold(thresholds)->Some_0;
    crate::engine::liquidate::lemma_min_threshold_upto(thresholds, thresholds.len() as int);
    assert(lt >= 0);
    let cf = debt * 5_000 / 10_000;
    assert(cf == trunc_div(debt * (CLOSE_FACTOR_BPS as int), 10_000));
    lemma_ceil_is_least(10_800 * lt, 10_000);
    let c = ceil_div_spec(10_800 * lt, 10_000);
    assert(c <= 10_800);
    let den = 11_000 - c;
    let num = 11_000 * debt - collateral_value * lt;
    lemma_ceil_is_least(num, den);
    let solved = ceil_div_spec(num, den);
    if solved > cf {
        assert((cf - 1) * den < num) by (nonlinear_arith)
            requires
                cf < solved,
                (solved - 1) * den < num,
                den > 0,
        ;
    }
}

/// Each seizure takes a positive amount of an asset, no more than the
/// balance `collateral` holds of it.
pub open spec fn within_balances(seizures: Seq<Seizure>, collateral: Seq<CollateralQuote>) -> bool {
    forall|j: int|
        #![trigger seizures[j]]
        0 <= j < seizures.len() ==> exists|i: int|
            #![trigger collateral[i]]
            0 <= i < collateral.len() && collateral[i].asset == seizures[j].asset && 0 < seizures[j].amount
                <= collateral[i].amount
}

/// `items` are `collateral` with some balances spent (set to zero).
pub open spec fn partly_spent(items: Seq<CollateralQuote>, collateral: Seq<CollateralQuote>) -> bool {
    &&& items.len() == collateral.len()
    &&& forall|i: int|
        0 <= i < items.len() ==> #[trigger] items[i].asset == collateral[i].asset && (items[i].amount
            == collateral[i].amount || items[i].amount == 0)
}

proof fn lemma_rounds_within_balances(items: Seq<CollateralQuote>, collateral: Seq<CollateralQuote>, remaining: int, rounds: nat)
    requires
        partly_spent(items, collateral),
    ensures
        seize_rounds(items, remaining, rounds) matches Ok(s) ==> within_balances(s, collateral) && s.len() <= rounds,
    decreases rounds,
{
    if rounds == 0 || remaining <= 0 {
    } else {
        match seize_step(items, remaining) {
            Err(_) => {},
            Ok((next, rest, taken)) => {
                lemma_largest_upto(items, items.len() as int);
                let k = largest_upto(items, items.len() as int)->Some_0;
                assert(items[k].amount == collateral[k].amount);
                assert(partly_spent(next, collateral)) by {
                    assert forall|i: int| 0 <= i < next.len() implies #[trigger] next[i].asset == collateral[i].asset
                        && (next[i].amount == collateral[i].amount || next[i].amount == 0) by {
                        assert(items[i].asset == collateral[i].asset);
                    }
                }
                lemma_rounds_within_balances(next, collateral, rest, (rounds - 1) as nat);
                match seize_rounds(next, rest, (rounds - 1) as nat) {
                    Err(_) => {},
                    Ok(later) => {
                        match taken {
                            None => {},
                            Some(t) => {
                                let all = seq![t] + later;
                                assert(t.asset == collateral[k].asset && 0 < t.amount <= collateral[k].amount);
                                assert forall|j: int| #![trigger all[j]] 0 <= j < all.len() implies exists|i: int|
                                    #![trigger collateral[i]]
                                    0 <= i < collateral.len() && collateral[i].asset == all[j].asset && 0 < all[j].amount
                                        <= collateral[i].amount by {
                                    if j == 0 {
                                        assert(all[0] == t);
                                        assert(collateral[k].asset == all[j].asset);
                                    } else {
                                        assert(all[j] == later[j - 1]);
                                    }
                                }
                            },
                        }
                    },
                }
            },
        }
    }
}

/// A seizure plan takes at most one seizure per balance, and each takes a
/// positive amount of an asset, no more than the borrower holds of it.
pub proof fn lemma_seizure_within_balances(collateral: Seq<CollateralQuote>, value: int)
    ensures
        seizure_plan(collateral, value) matches Ok(s) ==> within_balances(s, collateral) && s.len() <= collateral.len(),
{
    assert(partly_spent(collateral, collateral));
    lemma_rounds_within_balances(collateral, collateral, value, collateral.len());
}

/// A successful liquidation repays a positive amount, no more than the
/// liquidator offered nor than the partial-repayment limit, seizes that
/// amount plus the bonus, and takes every seizure from the borrower's
/// balances.
pub proof fn lemma_liquidation_bounds(
    state: EngineState,
    engine: AccountId,
    liquidator: AccountId,
    user: AccountId,
    max_repay_amount: int,
    registered_engine: Option<AccountId>,
    debt: int,
    collateral_value: int,
    health_factor: int,
    thresholds: Seq<CollateralThreshold>,
    borrow_asset: Option<AccountId>,
    collateral: Seq<CollateralQuote>,
)
    requires
        liquidation_outcome(state, engine, liquidator, user, max_repay_amount, registered_engine, debt, collateral_value,
            health_factor, thresholds, borrow_asset, collateral) matches Ok(_),
    ensures
        liquidation_outcome(state, engine, liquidator, user, max_repay_amount, registered_engine, debt, collateral_value,
            health_factor, thresholds, borrow_asset, collateral) matches Ok((res, asset, seizures)) && {
            &&& liquidator != user
            &&& res.user == user
            &&& 0 < res.repaid <= max_repay_amount
            &&& partial_repayment_result(state, debt, collateral_value, health_factor, thresholds) matches Ok(limit)
                && res.repaid <= limit
            &&& bonus_result(res.repaid as int) == Ok::<i128, EngineError>(res.bonus)
            &&& res.seized == res.repaid + res.bonus
            &&& borrow_asset == Some(asset)
            &&& within_balances(seizures, collateral)
        },
{
    let repay_limit = partial_repayment_result(state, debt, collateral_value, health_factor, thresholds);
    match repay_limit {
        Ok(limit) => {
            let repay = if max_repay_amount < limit { max_repay_amount } else { limit as int };
            match bonus_result(repay) {
                Ok(bonus) => {
                    lemma_seizure_within_balances(collateral, repay + bonus);
                },
                Err(_) => {},
            }
        },
        _ => {},
    }
}

/// No two balances are of the same asset.
pub open spec fn distinct_assets(collateral: Seq<CollateralQuote>) -> bool {
    forall|i: int, j: int|
        0 <= i < collateral.len() && 0 <= j < collateral.len() && i != j ==> #[trigger] collateral[i].asset
            != #[trigger] collateral[j].asset
}

/// Every balance is priced above zero.
pub open spec fn positively_priced(collateral: Seq<CollateralQuote>) -> bool {
    forall|i: int| 0 <= i < collateral.len() ==> #[trigger] collateral[i].price > 0
}

/// The balance of `collateral` that holds `asset`.
pub open spec fn quote_for(collateral: Seq<CollateralQuote>, asset: AccountId) -> CollateralQuote {
    collateral[choose|i: int| 0 <= i < collateral.len() && collateral[i].asset == asset]
}

/// The quote value of `amount` of `asset` at its price, rounded down, as
/// `token_amount_to_value` computes it.
pub open spec fn seized_value(asset: AccountId, amount: int, collateral: Seq<CollateralQuote>) -> int {
    let q = quote_for(collateral, asset);
    trunc_div(
        amount * PROTOCOL_QUOTE_PRECISION * q.price,
        pow10((q.token_decimals + q.oracle_price_decimals) as nat),
    )
}

/// The total quote value of a run of seizures.
pub open spec fn seized_total(seizures: Seq<Seizure>, collateral: Seq<CollateralQuote>) -> int
    decreases seizures.len(),
{
    if seizures.len() == 0 {
        0
    } else {
        seized_value(seizures[0].asset, seizures[0].amount as int, collateral) + seized_total(
            seizures.drop_first(),
            collateral,
        )
    }
}

/// `items` are `collateral` with some balances spent (set to zero), prices
/// and decimals untouched.
pub open spec fn spent_from(items: Seq<CollateralQuote>, collateral: Seq<CollateralQuote>) -> bool {
    &&& items.len() == collateral.len()
    &&& forall|i: int|
        0 <= i < items.len() ==> #[trigger] items[i] == collateral[i] || items[i] == (CollateralQuote {
            amount: 0,
            ..collateral[i]
        })
}

/// For a positive numerator and denominator, the floor of `x / d` is at
/// least `r` when `x` reaches `r * d`, and below `r` when `x` falls short.
proof fn lemma_floor_against(x: int, d: int, r: int)
    requires
        d > 0,
        x >= 0,
    ensures
        x >= r * d ==> trunc_div(x, d) >= r,
        x < r * d ==> trunc_div(x, d) < r,
{
    lemma_trunc_div_rem(x, d);
    let q = trunc_div(x, d);
    assert(x >= r * d ==> q >= r) by (nonlinear_arith)
        requires
            x == q * d + (x - q * d),
            0 <= x - q * d < d,
            d > 0,
    ;
    assert(x < r * d ==> q < r) by (nonlinear_arith)
        requires
            x == q * d + (x - q * d),
            0 <= x - q * d < d,
            d > 0,
    ;
}

/// What the rounds of seizure against `remaining` take is worth at least
/// `remaining`, and would fall short with one token less of the last
/// seizure.
proof fn lemma_rounds_value(items: Seq<CollateralQuote>, collateral: Seq<CollateralQuote>, remaining: int, rounds: nat)
    requires
        spent_from(items, collateral),
        distinct_assets(collateral),
        positively_priced(collateral),
        seize_rounds(items, remaining, rounds) is Ok,
    ensures
        seize_rounds(items, remaining, rounds) matches Ok(s) && {
            &&& remaining <= 0 ==> s.len() == 0
            &&& remaining > 0 ==> {
                &&& s.len() > 0
                &&& seized_total(s, collateral) >= remaining
                &&& seized_total(s.drop_last(), collateral) + seized_value(s.last().asset, s.last().amount - 1, collateral)
                    < remaining
            }
        },
    decreases rounds,
{
    if rounds == 0 || remaining <= 0 {
    } else {
        lemma_largest_upto(items, items.len() as int);
        let k = largest_upto(items, items.len() as int)->Some_0;
        let q = items[k];
        assert(q == collateral[k]);
        assert(quote_for(collateral, q.asset) == q) by {
            let i = choose|i: int| 0 <= i < collateral.len() && collateral[i].asset == q.asset;
            assert(0 <= k < collateral.len() && collateral[k].asset == q.asset);
            assert(i == k);
        }
        let spent = items.update(k, CollateralQuote { amount: 0, ..q });
        assert(spent_from(spent, collateral)) by {
            assert forall|i: int| 0 <= i < spent.len() implies #[trigger] spent[i] == collateral[i] || spent[i] == (
            CollateralQuote { amount: 0, ..collateral[i] }) by {
                assert(items[i] == collateral[i] || items[i] == (CollateralQuote { amount: 0, ..collateral[i] }));
            }
        }
        let scale = pow10((q.token_decimals + q.oracle_price_decimals) as nat);
        let denom = PROTOCOL_QUOTE_PRECISION * q.price;
        crate::common::lemma_pow10_monotone(0, (q.token_decimals + q.oracle_price_decimals) as nat);
        assert(q.price > 0);
        assert(denom > 0) by (nonlinear_arith)
            requires
                q.price > 0,
                denom == PROTOCOL_QUOTE_PRECISION * q.price,
        ;
        assert(remaining * scale > 0) by (nonlinear_arith)
            requires
                remaining > 0,
                scale > 0,
        ;
        let needed = ceil_div_spec(remaining * scale, denom);
        lemma_ceil_is_least(remaining * scale, denom);
        assert(needed > 0) by (nonlinear_arith)
            requires
                needed * denom >= remaining * scale,
                remaining * scale > 0,
                denom > 0,
        ;
        assert(seize_step(items, remaining) is Ok);
        assert(value_to_token_result(remaining, q.price as int, q.token_decimals as int, q.oracle_price_decimals as int)
            == Ok::<i128, EngineError>(needed as i128));
        if q.amount >= needed {
            let t = Seizure { asset: q.asset, amount: needed as i128 };
            let s = seq![t];
            assert(seize_step(items, remaining) == Ok::<(Seq<CollateralQuote>, int, Option<Seizure>), EngineError>(
                (spent, 0, Some(t)),
            ));
            assert(seize_rounds(spent, 0, (rounds - 1) as nat) == Ok::<Seq<Seizure>, EngineError>(Seq::empty()));
            assert(s =~= seq![t] + Seq::<Seizure>::empty());
            assert(seize_rounds(items, remaining, rounds) == Ok::<Seq<Seizure>, EngineError>(s));
            assert(needed * PROTOCOL_QUOTE_PRECISION * q.price == needed * denom) by (nonlinear_arith)
                requires
                    denom == PROTOCOL_QUOTE_PRECISION * q.price,
            ;
            assert((needed - 1) * PROTOCOL_QUOTE_PRECISION * q.price == (needed - 1) * denom) by (nonlinear_arith)
                requires
                    denom == PROTOCOL_QUOTE_PRECISION * q.price,
            ;
            assert((needed - 1) * denom >= 0) by (nonlinear_arith)
                requires
                    needed >= 1,
                    denom > 0,
            ;
            lemma_floor_against(needed * denom, scale, remaining);
            lemma_floor_against((needed - 1) * denom, scale, remaining);
            assert(s.drop_first() =~= Seq::<Seizure>::empty());
            assert(s.drop_last() =~= Seq::<Seizure>::empty());
            assert(seized_total(s.drop_first(), collateral) == 0);
            assert(seized_total(s, collateral) == seized_value(t.asset, t.amount as int, collateral));
        } else {
            let covered = trunc_div(q.amount * PROTOCOL_QUOTE_PRECISION * q.price, scale);
            let rest = remaining - covered;
            let t = Seizure { asset: q.asset, amount: q.amount };
            assert(q.amount * PROTOCOL_QUOTE_PRECISION * q.price == q.amount * denom) by (nonlinear_arith)
                requires
                    denom == PROTOCOL_QUOTE_PRECISION * q.price,
            ;
            assert(q.amount * denom >= 0 && q.amount * denom < remaining * scale) by (nonlinear_arith)
                requires
                    q.amount > 0,
                    q.amount <= needed - 1,
                    (needed - 1) * denom < remaining * scale,
                    denom > 0,
            ;
            lemma_floor_against(q.amount * denom, scale, remaining);
            assert(rest > 0);
            assert(seize_step(items, remaining) == Ok::<(Seq<CollateralQuote>, int, Option<Seizure>), EngineError>(
                (spent, rest, Some(t)),
            ));
            lemma_rounds_value(spent, collateral, rest, (rounds - 1) as nat);
            let later = seize_rounds(spent, rest, (rounds - 1) as nat)->Ok_0;
            let s = seq![t] + later;
            assert(seize_rounds(items, remaining, rounds) == Ok::<Seq<Seizure>, EngineError>(s));
            assert(seized_value(t.asset, t.amount as int, collateral) == covered);
            assert(s.drop_first() =~= later);
            assert(s.drop_last() =~= seq![t] + later.drop_last());
            assert((seq![t] + later.drop_last()).drop_first() =~= later.drop_last());
            assert(s.last() == later.last());
        }
    }
}

/// A seizure plan takes what the value asks and no more: the seizures,
/// each at its asset's price, are worth at least the value, a balance that
/// does not cover the rest being taken whole and credited with its value
/// rounded down, while one token less of the last seizure would fall
/// short. Nothing is seized for a value that is not positive.
pub proof fn lemma_seizure_covers_value_without_excess(collateral: Seq<CollateralQuote>, value: int)
    requires
        distinct_assets(collateral),
        positively_priced(collateral),
        seizure_plan(collateral, value) is Ok,
    ensures
        seizure_plan(collateral, value) matches Ok(s) && {
            &&& value <= 0 ==> s.len() == 0
            &&& value > 0 ==> {
                &&& s.len() > 0
                &&& seized_total(s, collateral) >= value
                &&& seized_total(s.drop_last(), collateral) + seized_value(s.last().asset, s.last().amount - 1, collateral)
                    < value
            }
        },
{
    lemma_rounds_value(collateral, collateral, value, collateral.len());
}

/// Some seizure before the `j`-th takes `asset`.
pub open spec fn taken_before(seizures: Seq<Seizure>, j: int, asset: AccountId) -> bool {
    exists|m: int| 0 <= m < j && #[trigger] seizures[m].asset == asset
}

/// Each seizure takes an asset of which `collateral` holds a positive
/// balance.
pub open spec fn from_held_balances(seizures: Seq<Seizure>, collateral: Seq<CollateralQuote>) -> bool {
    forall|j: int|
        0 <= j < seizures.len() ==> exists|i: int|
            0 <= i < collateral.len() && #[trigger] collateral[i].asset == #[trigger] seizures[j].asset
                && collateral[i].amount > 0
}

/// Each seizure takes the largest of the balances not taken before it.
pub open spec fn largest_first(seizures: Seq<Seizure>, collateral: Seq<CollateralQuote>) -> bool {
    forall|j: int, i: int|
        #![trigger seizures[j], collateral[i]]
        0 <= j < seizures.len() && 0 <= i < collateral.len() && !taken_before(seizures, j, collateral[i].asset)
            ==> collateral[i].amount <= quote_for(collateral, seizures[j].asset).amount
}

/// Every seizure but the last takes the whole balance of its asset.
pub open spec fn whole_but_last(seizures: Seq<Seizure>, collateral: Seq<CollateralQuote>) -> bool {
    forall|j: int|
        0 <= j < seizures.len() - 1 ==> #[trigger] seizures[j].amount == quote_for(collateral, seizures[j].asset).amount
}

/// With one balance per asset, the balance found for the asset at index
/// `k` is the one at `k`.
proof fn lemma_quote_for_index(collateral: Seq<CollateralQuote>, k: int)
    requires
        distinct_assets(collateral),
        0 <= k < collateral.len(),
    ensures
        quote_for(collateral, collateral[k].asset) == collateral[k],
{
    let i = choose|i: int| 0 <= i < collateral.len() && collateral[i].asset == collateral[k].asset;
    assert(i == k);
}

proof fn lemma_rounds_order(items: Seq<CollateralQuote>, remaining: int, rounds: nat)
    requires
        distinct_assets(items),
        seize_rounds(items, remaining, rounds) is Ok,
    ensures
        seize_rounds(items, remaining, rounds) matches Ok(s) && from_held_balances(s, items) && largest_first(s, items)
            && whole_but_last(s, items),
    decreases rounds,
{
    if rounds == 0 || remaining <= 0 {
    } else {
        lemma_largest_upto(items, items.len() as int);
        let k = largest_upto(items, items.len() as int)->Some_0;
        let q = items[k];
        lemma_quote_for_index(items, k);
        let spent = items.update(k, CollateralQuote { amount: 0, ..q });
        assert(distinct_assets(spent)) by {
            assert forall|i: int, j: int|
                0 <= i < spent.len() && 0 <= j < spent.len() && i != j implies #[trigger] spent[i].asset
                != #[trigger] spent[j].asset by {
                assert(spent[i].asset == items[i].asset && spent[j].asset == items[j].asset);
            }
        }
        assert(seize_step(items, remaining) is Ok);
        let (next, rest, taken) = seize_step(items, remaining)->Ok_0;
        assert(next == spent);
        lemma_rounds_order(spent, rest, (rounds - 1) as nat);
        let later = seize_rounds(spent, rest, (rounds - 1) as nat)->Ok_0;
        match taken {
            None => {
                assert(rest == 0);
                assert(later.len() == 0);
            },
            Some(t) => {
                assert(t.asset == q.asset && q.amount > 0);
                let s = seq![t] + later;
                assert(seize_rounds(items, remaining, rounds) == Ok::<Seq<Seizure>, EngineError>(s));
                assert(t.amount != q.amount ==> later.len() == 0) by {
                    if t.amount != q.amount {
                        assert(rest == 0);
                    }
                }
                // What `later` takes is held in `spent`, hence not the balance spent at `k`,
                // and is found at the same place in `items`.
                assert forall|j: int| #![trigger later[j]] 0 <= j < later.len() implies exists|i: int|
                    0 <= i < spent.len() && i != k && #[trigger] spent[i].asset == later[j].asset && spent[i].amount > 0
                        && quote_for(spent, later[j].asset) == spent[i] && quote_for(items, later[j].asset)
                        == items[i] && spent[i] == items[i] by {
                    let i = choose|i: int|
                        0 <= i < spent.len() && #[trigger] spent[i].asset == #[trigger] later[j].asset && spent[i].amount
                            > 0;
                    assert(i != k);
                    lemma_quote_for_index(spent, i);
                    lemma_quote_for_index(items, i);
                }
                assert forall|j: int| #![trigger s[j]] 0 <= j < s.len() implies exists|i: int|
                    0 <= i < items.len() && #[trigger] items[i].asset == s[j].asset && items[i].amount > 0 by {
                    if j == 0 {
                        assert(s[0] == t);
                        assert(items[k].asset == s[j].asset);
                    } else {
                        assert(s[j] == later[j - 1]);
                        let i = choose|i: int|
                            0 <= i < spent.len() && i != k && #[trigger] spent[i].asset == later[j - 1].asset
                                && spent[i].amount > 0 && quote_for(spent, later[j - 1].asset) == spent[i] && quote_for(
                                items,
                                later[j - 1].asset,
                            ) == items[i] && spent[i] == items[i];
                        assert(items[i].asset == s[j].asset);
                    }
                }
                assert forall|j: int, i: int|
                    #![trigger s[j], items[i]]
                    0 <= j < s.len() && 0 <= i < items.len() && !taken_before(s, j, items[i].asset) implies items[i].amount
                        <= quote_for(items, s[j].asset).amount by {
                    if j == 0 {
                        assert(s[0] == t);
                    } else {
                        assert(s[j] == later[j - 1]);
                        assert(s[0] == t);
                        assert(t.asset != items[i].asset);
                        assert(i != k);
                        assert(spent[i] == items[i]);
                        assert(!taken_before(later, j - 1, spent[i].asset)) by {
                            if taken_before(later, j - 1, spent[i].asset) {
                                let m = choose|m: int| 0 <= m < j - 1 && #[trigger] later[m].asset == spent[i].asset;
                                assert(s[m + 1] == later[m]);
                            }
                        }
                        assert(spent[i].amount <= quote_for(spent, later[j - 1].asset).amount);
                        let i2 = choose|i2: int|
                            0 <= i2 < spent.len() && i2 != k && #[trigger] spent[i2].asset == later[j - 1].asset
                                && spent[i2].amount > 0 && quote_for(spent, later[j - 1].asset) == spent[i2] && quote_for(
                                items,
                                later[j - 1].asset,
                            ) == items[i2] && spent[i2] == items[i2];
                    }
                }
                assert forall|j: int| 0 <= j < s.len() - 1 implies #[trigger] s[j].amount == quote_for(
                    items,
                    s[j].asset,
                ).amount by {
                    if j == 0 {
                        assert(s[0] == t);
                    } else {
                        assert(s[j] == later[j - 1]);
                        let i2 = choose|i2: int|
                            0 <= i2 < spent.len() && i2 != k && #[trigger] spent[i2].asset == later[j - 1].asset
                                && spent[i2].amount > 0 && quote_for(spent, later[j - 1].asset) == spent[i2] && quote_for(
                                items,
                                later[j - 1].asset,
                            ) == items[i2] && spent[i2] == items[i2];
                    }
                }
            },
        }
    }
}

/// A seizure plan goes largest balance first: each seizure takes the
/// largest of the balances not yet taken, every seizure but the last takes
/// its balance whole, and each takes an asset the borrower holds.
pub proof fn lemma_seizure_largest_first(collateral: Seq<CollateralQuote>, value: int)
    requires
        distinct_assets(collateral),
        seizure_plan(collateral, value) is Ok,
    ensures
        seizure_plan(collateral, value) matches Ok(s) && from_held_balances(s, collateral) && largest_first(
            s,
            collateral,
        ) && whole_but_last(s, collateral),
{
    lemma_rounds_order(collateral, value, collateral.len());
}

} // verus!
