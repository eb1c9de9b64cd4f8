//! Risk arithmetic: normalising token amounts and oracle prices to the
//! protocol's quote precision, valuing collateral, and checking asset risk
//! configurations.
use vstd::prelude::*;

use crate::common::{
    ceil_div, ceil_div_spec, checked_pow10, fits_i128, lemma_pow10_18, lemma_pow10_monotone,
    pow10, trunc_div, BPS_DENOMINATOR, PROTOCOL_QUOTE_PRECISION,
};
use crate::common::{health_factor_bps as shared_health_factor_bps, health_factor_result, AccountId, SharedError};
use crate::vault::errors::VaultError;
use crate::vault::storage::VaultState;
use crate::vault::types::{AssetConfig, CollateralAsset};

verus! {

/// Standardised precision of normalised token balances.
pub const TOKEN_AMOUNT_PRECISION: i128 = 10_000_000;

/// Standardised precision of normalised oracle prices.
pub const ORACLE_PRICE_PRECISION: i128 = 10_000_000;

/// Rounding policy: valuations and debt comparisons round down; collateral
/// requirements round up.
#[derive(Debug, Clone, Copy, PartialEq, Eq, Structural)]
pub enum RoundingMode {
    Floor,
    Ceiling,
}

/// Whether token and oracle decimals are each between 1 and 18.
pub open spec fn valid_decimals(token_decimals: int, oracle_price_decimals: int) -> bool {
    1 <= token_decimals <= 18 && 1 <= oracle_price_decimals <= 18
}

/// Accepts token and oracle decimals between 1 and 18; `InvalidAssetConfig`
/// otherwise.
pub fn validate_asset_config(token_decimals: u32, oracle_price_decimals: u32) -> (r: Result<(), VaultError>)
    ensures
        r == (if valid_decimals(token_decimals as int, oracle_price_decimals as int) {
            Ok::<(), VaultError>(())
        } else {
            Err(VaultError::InvalidAssetConfig)
        }),
{
    if token_decimals == 0 || oracle_price_decimals == 0 {
        return Err(VaultError::InvalidAssetConfig);
    }
    if token_decimals > 18 || oracle_price_decimals > 18 {
        return Err(VaultError::InvalidAssetConfig);
    }
    Ok(())
}

/// `min(decimals, 18)`.
pub open spec fn capped_decimals(decimals: int) -> nat {
    if decimals < 18 {
        decimals as nat
    } else {
        18
    }
}

/// What `normalize_with_precision` returns: `amount * precision` divided by
/// `10^min(decimals, 18)`, truncated toward zero.
pub open spec fn normalize_result(amount: int, decimals: int, precision: int) -> Result<i128, VaultError> {
    if !fits_i128(amount * precision) {
        Err(VaultError::InvalidInputs)
    } else {
        Ok(trunc_div(amount * precision, pow10(capped_decimals(decimals))) as i128)
    }
}

/// Rescales `amount` from `decimals` decimals to `precision`:
/// `amount * precision / 10^min(decimals, 18)`, truncated toward zero.
/// `InvalidInputs` when `amount * precision` does not fit.
pub fn normalize_with_precision(amount: i128, decimals: u32, precision: i128) -> (r: Result<i128, VaultError>)
    ensures
        r == normalize_result(amount as int, decimals as int, precision as int),
{
    let capped = if decimals < 18 { decimals } else { 18 };
    proof {
        lemma_pow10_monotone(capped as nat, 18);
        lemma_pow10_18();
    }
    let scale = match checked_pow10(capped) {
        Some(s) => s,
        None => {
            return Err(VaultError::InvalidInputs);
        },
    };
    let scaled = match amount.checked_mul(precision) {
        Some(v) => v,
        None => {
            return Err(VaultError::InvalidInputs);
        },
    };
    proof {
        lemma_trunc_div_small_divisor_fits(scaled as int, scale as int);
    }
    let q = match scaled.checked_div(scale) {
        Some(q) => q,
        None => {
            return Err(VaultError::InvalidInputs);
        },
    };
    Ok(q)
}

/// Dividing an `i128` by a positive divisor stays in range.
proof fn lemma_trunc_div_small_divisor_fits(x: int, d: int)
    requires
        fits_i128(x),
        d >= 1,
    ensures
        fits_i128(trunc_div(x, d)),
{
    if x > 0 {
        assert(x / d <= x) by (nonlinear_arith)
            requires
                x > 0,
                d >= 1,
        ;
        assert(x / d >= 0) by (nonlinear_arith)
            requires
                x > 0,
                d >= 1,
        ;
    } else if x < 0 {
        assert((-x) / d <= -x) by (nonlinear_arith)
            requires
                x < 0,
                d >= 1,
        ;
        assert((-x) / d >= 0) by (nonlinear_arith)
            requires
                x < 0,
                d >= 1,
        ;
    }
}

/// A token balance in base units, normalised to the protocol's token
/// precision (rounded toward zero).
pub fn normalize_token_amount(amount: i128, token_decimals: u32) -> (r: Result<i128, VaultError>)
    ensures
        r == normalize_result(amount as int, token_decimals as int, TOKEN_AMOUNT_PRECISION as int),
{
    let n = normalize_with_precision(amount, token_decimals, TOKEN_AMOUNT_PRECISION)?;
    Ok(rounded_quote_amount(n, RoundingMode::Floor))
}

/// An oracle price, normalised to the protocol's price precision (rounded
/// toward zero).
pub fn normalize_oracle_price(price: i128, oracle_price_decimals: u32) -> (r: Result<i128, VaultError>)
    ensures
        r == normalize_result(price as int, oracle_price_decimals as int, ORACLE_PRICE_PRECISION as int),
{
    let n = normalize_with_precision(price, oracle_price_decimals, ORACLE_PRICE_PRECISION)?;
    Ok(rounded_quote_amount(n, RoundingMode::Floor))
}

/// Debt is already expressed in quote units; normalising it is the identity.
pub fn normalize_debt_amount(amount: i128) -> (r: i128)
    ensures
        r == amount,
{
    rounded_quote_amount(amount, RoundingMode::Floor)
}

/// What `rounded_quote_amount` returns.
pub open spec fn rounded_quote_spec(amount: int, mode: RoundingMode) -> int {
    match mode {
        RoundingMode::Floor => amount,
        RoundingMode::Ceiling => ceil_div_spec(amount, BPS_DENOMINATOR as int),
    }
}

/// Applies a rounding policy to a quote amount: `Floor` keeps an amount that
/// is already in quote units; `Ceiling` divides a bps-scaled amount by
/// 10_000, rounding up.
pub fn rounded_quote_amount(amount: i128, mode: RoundingMode) -> (r: i128)
    ensures
        r == rounded_quote_spec(amount as int, mode),
{
    match mode {
        RoundingMode::Floor => amount,
        RoundingMode::Ceiling => {
            proof {
                lemma_ceil_small(amount as int);
            }
            match ceil_div(amount, BPS_DENOMINATOR) {
                Ok(v) => v,
                Err(_) => amount,
            }
        },
    }
}

/// Ceiling division of an `i128` by 10_000 stays in range.
proof fn lemma_ceil_small(a: int)
    requires
        fits_i128(a),
    ensures
        fits_i128(ceil_div_spec(a, 10_000)),
{
    assert(fits_i128(-((-a) / 10_000))) by (nonlinear_arith)
        requires
            fits_i128(a),
    ;
}

/// Whether the normalised valuation of `amount` at `price` can be computed
/// without overflow.
pub open spec fn collateral_value_defined(amount: int, price: int, token_decimals: int, oracle_price_decimals: int) -> bool {
    &&& normalize_result(amount, token_decimals, TOKEN_AMOUNT_PRECISION as int) is Ok
    &&& normalize_result(price, oracle_price_decimals, ORACLE_PRICE_PRECISION as int) is Ok
    &&& fits_i128(
        normalize_result(amount, token_decimals, TOKEN_AMOUNT_PRECISION as int)->Ok_0
            * normalize_result(price, oracle_price_decimals, ORACLE_PRICE_PRECISION as int)->Ok_0,
    )
}

/// The quote value of `amount` base units at `price`: both normalised to the
/// protocol precision, multiplied, and divided by the precision (each step
/// truncated toward zero).
pub open spec fn collateral_value_spec(amount: int, price: int, token_decimals: int, oracle_price_decimals: int) -> int {
    trunc_div(
        normalize_result(amount, token_decimals, TOKEN_AMOUNT_PRECISION as int)->Ok_0
            * normalize_result(price, oracle_price_decimals, ORACLE_PRICE_PRECISION as int)->Ok_0,
        PROTOCOL_QUOTE_PRECISION as int,
    )
}

/// Values `amount` base units of a token at an oracle `price`, in quote units
/// (rounded toward zero). The computation must not overflow.
pub fn collateral_value(amount: i128, price: i128, token_decimals: u32, oracle_price_decimals: u32) -> (v: i128)
    requires
        collateral_value_defined(amount as int, price as int, token_decimals as int, oracle_price_decimals as int),
    ensures
        v == collateral_value_spec(amount as int, price as int, token_decimals as int, oracle_price_decimals as int),
{
    let normalized_amount = match normalize_token_amount(amount, token_decimals) {
        Ok(v) => v,
        Err(_) => 0,
    };
    let normalized_price = match normalize_oracle_price(price, oracle_price_decimals) {
        Ok(v) => v,
        Err(_) => 0,
    };
    let product = normalized_amount * normalized_price;
    proof {
        lemma_trunc_div_small_divisor_fits(product as int, PROTOCOL_QUOTE_PRECISION as int);
    }
    let q = match product.checked_div(PROTOCOL_QUOTE_PRECISION) {
        Some(q) => q,
        None => 0,
    };
    rounded_quote_amount(q, RoundingMode::Floor)
}

/// Whether a collateral value covers a debt (both in quote units).
pub fn compare_collateral_with_debt(collateral_value: i128, debt: i128) -> (r: bool)
    ensures
        r == (collateral_value >= debt),
{
    let normalized_debt = normalize_debt_amount(debt);
    rounded_quote_amount(collateral_value, RoundingMode::Floor) >= normalized_debt
}

/// Collateral required for `debt` at a minimum ratio in bps:
/// `debt * min_ratio_bps / 10_000`, rounded up so the requirement is never
/// understated. The product must fit in an `i128`.
pub fn required_collateral_for_debt(debt: i128, min_ratio_bps: i128) -> (r: i128)
    requires
        fits_i128(debt * min_ratio_bps),
    ensures
        r == ceil_div_spec(debt * min_ratio_bps, 10_000),
{
    let normalized_debt = normalize_debt_amount(debt);
    let numerator = normalized_debt * min_ratio_bps;
    rounded_quote_amount(numerator, RoundingMode::Ceiling)
}

/// Whether a full risk configuration is acceptable: valid decimals, both
/// bps values in `1..=10_000`, and the liquidation threshold strictly above
/// the max LTV.
pub open spec fn valid_risk_config(token_decimals: int, oracle_price_decimals: int, max_ltv_bps: int, liquidation_threshold_bps: int) -> bool {
    &&& valid_decimals(token_decimals, oracle_price_decimals)
    &&& 1 <= max_ltv_bps <= 10_000
    &&& 1 <= liquidation_threshold_bps <= 10_000
    &&& liquidation_threshold_bps > max_ltv_bps
}

/// Checks a full risk configuration; `InvalidAssetConfig` when it is not
/// acceptable.
pub fn validate_asset_risk_config(
    token_decimals: u32,
    oracle_price_decimals: u32,
    max_ltv_bps: u32,
    liquidation_threshold_bps: u32,
) -> (r: Result<(), VaultError>)
    ensures
        r == (if valid_risk_config(token_decimals as int, oracle_price_decimals as int, max_ltv_bps as int, liquidation_threshold_bps as int) {
            Ok::<(), VaultError>(())
        } else {
            Err(VaultError::InvalidAssetConfig)
        }),
{
    validate_asset_config(token_decimals, oracle_price_decimals)?;
    if !(1 <= max_ltv_bps && max_ltv_bps <= 10_000) || !(1 <= liquidation_threshold_bps && liquidation_threshold_bps <= 10_000) {
        return Err(VaultError::InvalidAssetConfig);
    }
    if liquidation_threshold_bps <= max_ltv_bps {
        return Err(VaultError::InvalidAssetConfig);
    }
    Ok(())
}

/// The configuration that applies to `asset` (the stored one or the
/// default).
pub fn asset_config_for(state: &VaultState, asset: AccountId) -> (c: AssetConfig)
    ensures
        c == state.config_of(asset),
{
    state.get_asset_config_or_default(asset)
}

/// Whether a configuration's decimals are acceptable.
pub open spec fn config_valid(c: AssetConfig) -> bool {
    valid_decimals(c.token_decimals as int, c.oracle_price_decimals as int)
}

/// The configuration that applies to `asset`, which must have acceptable
/// decimals.
pub fn validate_and_load_asset_config(state: &VaultState, asset: AccountId) -> (c: AssetConfig)
    requires
        config_valid(state.config_of(asset)),
    ensures
        c == state.config_of(asset),
{
    asset_config_for(state, asset)
}

/// Normalised quote value of the first `n` entries at the given prices, each
/// valued under its asset's configuration; `None` where the original
/// computation cannot go on (a configuration with unacceptable decimals, a
/// valuation or a running sum that overflows).
pub open spec fn normalized_valuation(state: VaultState, items: Seq<CollateralAsset>, prices: Seq<i128>, n: nat) -> Option<int>
    decreases n,
{
    if n == 0 {
        Some(0)
    } else {
        match normalized_valuation(state, items, prices, (n - 1) as nat) {
            None => None,
            Some(t) => {
                let item = items[n - 1];
                let c = state.config_of(item.asset);
                if !config_valid(c) {
                    None
                } else if !collateral_value_defined(item.amount as int, prices[n - 1] as int, c.token_decimals as int, c.oracle_price_decimals as int) {
                    None
                } else if !fits_i128(t + collateral_value_spec(item.amount as int, prices[n - 1] as int, c.token_decimals as int, c.oracle_price_decimals as int)) {
                    None
                } else {
                    Some(t + collateral_value_spec(item.amount as int, prices[n - 1] as int, c.token_decimals as int, c.oracle_price_decimals as int))
                }
            },
        }
    }
}

/// The normalised collateral value of `user`'s position at `prices` (the
/// oracle price of each entry, in position order): the sum of each entry's
/// `collateral_value` under its asset's configuration. The user must hold a
/// position, the oracle must be configured, and the valuation must be
/// computable.
pub fn normalized_collateral_value(state: &VaultState, user: AccountId, prices: &Vec<i128>) -> (v: i128)
    requires
        state.wf(),
        state.has_position(user),
        state.oracle is Some,
        prices@.len() == state.position_items(user).len(),
        normalized_valuation(*state, state.position_items(user), prices@, state.position_items(user).len()) is Some,
    ensures
        v == normalized_valuation(*state, state.position_items(user), prices@, state.position_items(user).len())->Some_0,
{
    let position = match state.get_position(user) {
        Some(p) => p,
        None => {
            return 0;
        },
    };
    let ghost items = state.position_items(user);
    let mut total: i128 = 0;
    let mut i: usize = 0;
    while i < position.collateral.len()
        invariant
            state.wf(),
            position.collateral@ == items,
            prices@.len() == items.len(),
            i <= items.len(),
            normalized_valuation(*state, items, prices@, i as nat) == Some(total as int),
            normalized_valuation(*state, items, prices@, items.len()) is Some,
        decreases items.len() - i,
    {
        proof {
            lemma_normalized_prefix(*state, items, prices@, (i + 1) as nat, items.len());
        }
        let item = position.collateral[i];
        let config = validate_and_load_asset_config(state, item.asset);
        let item_value = collateral_value(item.amount, prices[i], config.token_decimals, config.oracle_price_decimals);
        total = total + item_value;
        i = i + 1;
    }
    rounded_quote_amount(total, RoundingMode::Floor)
}

/// The normalised collateral value of `user`'s position at `prices` when it
/// can be computed (see `normalized_collateral_value`); `None` where the
/// computation cannot go on (an asset configuration with unacceptable
/// decimals, or an overflow).
pub fn checked_normalized_collateral_value(state: &VaultState, user: AccountId, prices: &Vec<i128>) -> (r: Option<i128>)
    requires
        state.wf(),
        state.has_position(user),
        prices@.len() == state.position_items(user).len(),
    ensures
        r == (match normalized_valuation(*state, state.position_items(user), prices@, state.position_items(user).len()) {
            Some(v) => Some(v as i128),
            None => None::<i128>,
        }),
{
    let position = match state.get_position(user) {
        Some(p) => p,
        None => {
            return None;
        },
    };
    let ghost items = state.position_items(user);
    let mut total: i128 = 0;
    let mut i: usize = 0;
    while i < position.collateral.len()
        invariant
            items == state.position_items(user),
            position.collateral@ == items,
            prices@.len() == items.len(),
            i <= items.len(),
            normalized_valuation(*state, items, prices@, i as nat) == Some(total as int),
        decreases items.len() - i,
    {
        let item = position.collateral[i];
        assert(items[i as int] == item);
        let config = asset_config_for(state, item.asset);
        if validate_asset_config(config.token_decimals, config.oracle_price_decimals).is_err() {
            proof {
                assert(normalized_valuation(*state, items, prices@, (i + 1) as nat) is None);
                lemma_normalized_none_sticky(*state, items, prices@, (i + 1) as nat, items.len());
            }
            return None;
        }
        let amount = match normalize_token_amount(item.amount, config.token_decimals) {
            Ok(v) => v,
            Err(_) => {
                proof {
                    assert(normalized_valuation(*state, items, prices@, (i + 1) as nat) is None);
                    lemma_normalized_none_sticky(*state, items, prices@, (i + 1) as nat, items.len());
                }
                return None;
            },
        };
        let price = match normalize_oracle_price(prices[i], config.oracle_price_decimals) {
            Ok(v) => v,
            Err(_) => {
                proof {
                    assert(normalized_valuation(*state, items, prices@, (i + 1) as nat) is None);
                    lemma_normalized_none_sticky(*state, items, prices@, (i + 1) as nat, items.len());
                }
                return None;
            },
        };
        let product = match amount.checked_mul(price) {
            Some(v) => v,
            None => {
                proof {
                    assert(normalized_valuation(*state, items, prices@, (i + 1) as nat) is None);
                    lemma_normalized_none_sticky(*state, items, prices@, (i + 1) as nat, items.len());
                }
                return None;
            },
        };
        proof {
            lemma_trunc_div_small_divisor_fits(product as int, PROTOCOL_QUOTE_PRECISION as int);
        }
        let value = match product.checked_div(PROTOCOL_QUOTE_PRECISION) {
            Some(v) => v,
            None => {
                return None;
            },
        };
        total = match total.checked_add(value) {
            Some(v) => v,
            None => {
                proof {
                    assert(normalized_valuation(*state, items, prices@, (i + 1) as nat) is None);
                    lemma_normalized_none_sticky(*state, items, prices@, (i + 1) as nat, items.len());
                }
                return None;
            },
        };
        i = i + 1;
    }
    Some(total)
}

/// Once a prefix of the valuation cannot be computed, neither can any
/// longer one.
proof fn lemma_normalized_none_sticky(state: VaultState, items: Seq<CollateralAsset>, prices: Seq<i128>, k: nat, n: nat)
    requires
        k <= n,
        normalized_valuation(state, items, prices, k) is None,
    ensures
        normalized_valuation(state, items, prices, n) is None,
    decreases n - k,
{
    if k < n {
        lemma_normalized_none_sticky(state, items, prices, k, (n - 1) as nat);
    }
}

/// A defined valuation has defined prefixes.
pub proof fn lemma_normalized_prefix(state: VaultState, items: Seq<CollateralAsset>, prices: Seq<i128>, k: nat, n: nat)
    requires
        k <= n,
        normalized_valuation(state, items, prices, n) is Some,
    ensures
        normalized_valuation(state, items, prices, k) is Some,
    decreases n - k,
{
    if k < n {
        lemma_normalized_prefix(state, items, prices, (k + 1) as nat, n);
    }
}

/// Smallest liquidation threshold among the first `n` entries with a
/// non-zero amount, if any.
pub open spec fn min_threshold(state: VaultState, items: Seq<CollateralAsset>, n: nat) -> Option<u32>
    decreases n,
{
    if n == 0 {
        None
    } else {
        let prev = min_threshold(state, items, (n - 1) as nat);
        let item = items[n - 1];
        if item.amount == 0 {
            prev
        } else {
            let lt = state.config_of(item.asset).liquidation_threshold_bps;
            match prev {
                Some(c) => Some(if c <= lt { c } else { lt }),
                None => Some(lt),
            }
        }
    }
}

/// The threshold of a run of collateral entries is the weakest one held:
/// it is defined exactly when some entry has a non-zero amount, it is no
/// larger than the threshold of any such entry, and it is the threshold of
/// one of them.
pub proof fn lemma_min_threshold_is_weakest_held(state: VaultState, items: Seq<CollateralAsset>, n: nat)
    requires
        n <= items.len(),
    ensures
        min_threshold(state, items, n) is None <==> (forall|i: int| 0 <= i < n ==> #[trigger] items[i].amount == 0),
        forall|i: int|
            0 <= i < n && #[trigger] items[i].amount != 0 ==> (min_threshold(state, items, n) matches Some(lt) && lt
                <= state.config_of(items[i].asset).liquidation_threshold_bps),
        min_threshold(state, items, n) matches Some(lt) ==> exists|i: int|
            0 <= i < n && #[trigger] items[i].amount != 0 && lt == state.config_of(
                items[i].asset,
            ).liquidation_threshold_bps,
    decreases n,
{
    if n > 0 {
        let m = (n - 1) as nat;
        lemma_min_threshold_is_weakest_held(state, items, m);
        let last = items[m as int];
        if last.amount == 0 {
            assert forall|i: int| 0 <= i < n && #[trigger] items[i].amount != 0 implies i < m by {}
        } else {
            let lt = state.config_of(last.asset).liquidation_threshold_bps;
            match min_threshold(state, items, m) {
                None => {
                    assert(items[m as int].amount != 0);
                }
                Some(c) => {
                    let w = choose|i: int|
                        0 <= i < m && #[trigger] items[i].amount != 0 && c == state.config_of(
                            items[i].asset,
                        ).liquidation_threshold_bps;
                    if c <= lt {
                        assert(items[w].amount != 0);
                    } else {
                        assert(items[m as int].amount != 0);
                    }
                }
            }
        }
    }
}

/// The liquidation threshold of `user`'s position: the smallest threshold
/// among the assets it holds, so a mixed position is treated as safe as its
/// weakest collateral. `NoPosition` when the user holds nothing.
pub fn position_liquidation_threshold_bps(state: &VaultState, user: AccountId) -> (r: Result<u32, VaultError>)
    requires
        state.wf(),
    ensures
        r == (if !state.has_position(user) {
            Err(VaultError::NoPosition)
        } else {
            match min_threshold(*state, state.position_items(user), state.position_items(user).len()) {
                Some(lt) => Ok::<u32, VaultError>(lt),
                None => Err(VaultError::NoPosition),
            }
        }),
        r matches Ok(lt) ==> {
            let items = state.position_items(user);
            &&& forall|i: int|
                0 <= i < items.len() && #[trigger] items[i].amount != 0 ==> lt <= state.config_of(
                    items[i].asset,
                ).liquidation_threshold_bps
            &&& exists|i: int|
                0 <= i < items.len() && #[trigger] items[i].amount != 0 && lt == state.config_of(
                    items[i].asset,
                ).liquidation_threshold_bps
        },
{
    proof {
        lemma_min_threshold_is_weakest_held(*state, state.position_items(user), state.position_items(user).len());
    }
    let position = match state.get_position(user) {
        Some(p) => p,
        None => {
            return Err(VaultError::NoPosition);
        },
    };
    let ghost items = state.position_items(user);
    let mut min_lt: Option<u32> = None;
    let mut i: usize = 0;
    while i < position.collateral.len()
        invariant
            position.collateral@ == items,
            i <= items.len(),
            min_lt == min_threshold(*state, items, i as nat),
        decreases items.len() - i,
    {
        let item = position.collateral[i];
        if item.amount != 0 {
            let config = asset_config_for(state, item.asset);
            min_lt = Some(match min_lt {
                Some(current) => if current <= config.liquidation_threshold_bps {
                    current
                } else {
                    config.liquidation_threshold_bps
                },
                None => config.liquidation_threshold_bps,
            });
        }
        i = i + 1;
    }
    match min_lt {
        Some(lt) => Ok(lt),
        None => Err(VaultError::NoPosition),
    }
}

/// How the vault reports a failure of the shared health-factor arithmetic.
pub open spec fn map_shared_error(e: SharedError) -> VaultError {
    match e {
        SharedError::InvalidAmount => VaultError::InvalidAmount,
        SharedError::Overflow => VaultError::InvalidInputs,
        SharedError::InvalidBps => VaultError::InvalidAssetConfig,
        SharedError::NotImplemented => VaultError::NotImplemented,
        SharedError::DivisionByZero => VaultError::InvalidInputs,
    }
}

/// A shared health-factor result, with its error reported the vault's way.
pub open spec fn map_shared_result(r: Result<i128, SharedError>) -> Result<i128, VaultError> {
    match r {
        Ok(v) => Ok(v),
        Err(e) => Err(map_shared_error(e)),
    }
}

fn convert_shared_error(e: SharedError) -> (r: VaultError)
    ensures
        r == map_shared_error(e),
{
    match e {
        SharedError::InvalidAmount => VaultError::InvalidAmount,
        SharedError::Overflow => VaultError::InvalidInputs,
        SharedError::InvalidBps => VaultError::InvalidAssetConfig,
        SharedError::NotImplemented => VaultError::NotImplemented,
        SharedError::DivisionByZero => VaultError::InvalidInputs,
    }
}

/// What `health_factor_bps` returns for a user holding a position.
pub open spec fn position_health_result(state: VaultState, user: AccountId, debt: int, prices: Seq<i128>) -> Result<i128, VaultError> {
    let items = state.position_items(user);
    match min_threshold(state, items, items.len()) {
        None => Err(VaultError::NoPosition),
        Some(lt) => map_shared_result(
            health_factor_result(normalized_valuation(state, items, prices, items.len())->Some_0, debt, lt as int),
        ),
    }
}

/// Health factor of `user`'s position in bps against `debt`: the
/// normalised collateral value at `prices` weighted by the position's
/// liquidation threshold, divided by the debt (`i128::MAX` without debt).
///
/// Errors: `NoPosition`; the shared arithmetic's errors (`InvalidAmount`
/// for a negative value or debt, `InvalidInputs` on overflow).
pub fn health_factor_bps(state: &VaultState, user: AccountId, debt: i128, prices: &Vec<i128>) -> (r: Result<i128, VaultError>)
    requires
        state.wf(),
        state.has_position(user) ==> {
            &&& state.oracle is Some
            &&& prices@.len() == state.position_items(user).len()
            &&& normalized_valuation(*state, state.position_items(user), prices@, state.position_items(user).len()) is Some
        },
    ensures
        r == (if !state.has_position(user) {
            Err(VaultError::NoPosition)
        } else {
            position_health_result(*state, user, debt as int, prices@)
        }),
{
    if state.get_position(user).is_none() {
        return Err(VaultError::NoPosition);
    }
    let collateral_value = normalized_collateral_value(state, user, prices);
    let liquidation_threshold_bps = position_liquidation_threshold_bps(state, user)?;
    match shared_health_factor_bps(collateral_value, debt, liquidation_threshold_bps) {
        Ok(hf) => Ok(hf),
        Err(e) => Err(convert_shared_error(e)),
    }
}

/// The position's entries after withdrawing `amount` of `asset`.
pub open spec fn post_withdraw_items(items: Seq<CollateralAsset>, asset: AccountId, amount: int) -> Seq<CollateralAsset> {
    items.map_values(
        |it: CollateralAsset| CollateralAsset {
            asset: it.asset,
            amount: if it.asset == asset { (it.amount - amount) as i128 } else { it.amount },
        },
    )
}

/// Normalised value of the first `n` entries that keep a positive amount;
/// `None` where the computation cannot go on.
pub open spec fn remaining_valuation(state: VaultState, items: Seq<CollateralAsset>, prices: Seq<i128>, n: nat) -> Option<int>
    decreases n,
{
    if n == 0 {
        Some(0)
    } else {
        match remaining_valuation(state, items, prices, (n - 1) as nat) {
            None => None,
            Some(t) => {
                let item = items[n - 1];
                let c = state.config_of(item.asset);
                if item.amount <= 0 {
                    Some(t)
                } else if !config_valid(c) {
                    None
                } else if !collateral_value_defined(item.amount as int, prices[n - 1] as int, c.token_decimals as int, c.oracle_price_decimals as int) {
                    None
                } else if !fits_i128(t + collateral_value_spec(item.amount as int, prices[n - 1] as int, c.token_decimals as int, c.oracle_price_decimals as int)) {
                    None
                } else {
                    Some(t + collateral_value_spec(item.amount as int, prices[n - 1] as int, c.token_decimals as int, c.oracle_price_decimals as int))
                }
            },
        }
    }
}

/// Smallest liquidation threshold among the first `n` entries that keep a
/// positive amount, if any.
pub open spec fn remaining_threshold(state: VaultState, items: Seq<CollateralAsset>, n: nat) -> Option<u32>
    decreases n,
{
    if n == 0 {
        None
    } else {
        let prev = remaining_threshold(state, items, (n - 1) as nat);
        let item = items[n - 1];
        if item.amount <= 0 {
            prev
        } else {
            let lt = state.config_of(item.asset).liquidation_threshold_bps;
            match prev {
                Some(c) => Some(if c <= lt { c } else { lt }),
                None => Some(lt),
            }
        }
    }
}

/// A defined remaining valuation has defined prefixes.
pub proof fn lemma_remaining_prefix(state: VaultState, items: Seq<CollateralAsset>, prices: Seq<i128>, k: nat, n: nat)
    requires
        k <= n,
        remaining_valuation(state, items, prices, n) is Some,
    ensures
        remaining_valuation(state, items, prices, k) is Some,
    decreases n - k,
{
    if k < n {
        lemma_remaining_prefix(state, items, prices, (k + 1) as nat, n);
    }
}

/// Whether the post-withdrawal valuation can be computed once the checks
/// before it have passed.
pub open spec fn post_withdraw_computable(state: VaultState, user: AccountId, asset: AccountId, withdraw_amount: int, debt: int, prices: Seq<i128>) -> bool {
    (debt > 0 && withdraw_amount > 0 && state.has_position(user) && state.balance(user, asset) >= withdraw_amount) ==> {
        &&& state.oracle is Some
        &&& prices.len() == state.position_items(user).len()
        &&& remaining_valuation(
            state,
            post_withdraw_items(state.position_items(user), asset, withdraw_amount),
            prices,
            state.position_items(user).len(),
        ) is Some
    }
}

/// What `is_post_withdraw_healthy` returns.
pub open spec fn post_withdraw_result(state: VaultState, user: AccountId, asset: AccountId, withdraw_amount: int, debt: int, prices: Seq<i128>) -> Result<bool, VaultError> {
    if debt <= 0 {
        Ok(true)
    } else if withdraw_amount <= 0 {
        Err(VaultError::InvalidAmount)
    } else if !state.has_position(user) {
        Err(VaultError::NoPosition)
    } else if state.balance(user, asset) < withdraw_amount {
        Err(VaultError::InsufficientCollateral)
    } else {
        let items = post_withdraw_items(state.position_items(user), asset, withdraw_amount);
        match remaining_threshold(state, items, items.len()) {
            None => Ok(false),
            Some(lt) => match map_shared_result(
                health_factor_result(remaining_valuation(state, items, prices, items.len())->Some_0, debt, lt as int),
            ) {
                Ok(hf) => Ok(hf >= 10_000),
                Err(e) => Err(e),
            },
        }
    }
}

/// Whether `user`'s position stays healthy (health factor at least 1.00)
/// after withdrawing `withdraw_amount` of `asset`, valued at `prices` (the
/// oracle price of each entry, in position order). Always healthy without
/// debt; unhealthy when nothing would remain.
///
/// Errors, in this order: `InvalidAmount` for a non-positive withdrawal;
/// `NoPosition`; `InsufficientCollateral` when the balance is below the
/// withdrawal; the shared health-factor errors.
pub fn is_post_withdraw_healthy(
    state: &VaultState,
    user: AccountId,
    asset: AccountId,
    withdraw_amount: i128,
    debt: i128,
    prices: &Vec<i128>,
) -> (r: Result<bool, VaultError>)
    requires
        state.wf(),
        post_withdraw_computable(*state, user, asset, withdraw_amount as int, debt as int, prices@),
    ensures
        r == post_withdraw_result(*state, user, asset, withdraw_amount as int, debt as int, prices@),
{
    if debt <= 0 {
        return Ok(true);
    }
    if withdraw_amount <= 0 {
        return Err(VaultError::InvalidAmount);
    }
    let position = match state.get_position(user) {
        Some(p) => p,
        None => {
            return Err(VaultError::NoPosition);
        },
    };
    let balance = state.get_position_balance(user, asset);
    if balance < withdraw_amount {
        return Err(VaultError::InsufficientCollateral);
    }
    let ghost items = post_withdraw_items(state.position_items(user), asset, withdraw_amount as int);
    let mut total_value: i128 = 0;
    let mut min_lt: Option<u32> = None;
    let mut i: usize = 0;
    while i < position.collateral.len()
        invariant
            state.wf(),
            position.collateral@ == state.position_items(user),
            items == post_withdraw_items(state.position_items(user), asset, withdraw_amount as int),
            prices@.len() == items.len(),
            withdraw_amount > 0,
            i <= items.len(),
            remaining_valuation(*state, items, prices@, i as nat) == Some(total_value as int),
            remaining_valuation(*state, items, prices@, items.len()) is Some,
            min_lt == remaining_threshold(*state, items, i as nat),
        decreases items.len() - i,
    {
        proof {
            lemma_remaining_prefix(*state, items, prices@, (i + 1) as nat, items.len());
        }
        let item = position.collateral[i];
        let post_amount = if item.asset == asset {
            match item.amount.checked_sub(withdraw_amount) {
                Some(a) => a,
                None => {
                    return Err(VaultError::InsufficientCollateral);
                },
            }
        } else {
            item.amount
        };
        assert(post_amount == items[i as int].amount);
        if post_amount > 0 {
            let config = validate_and_load_asset_config(state, item.asset);
            let item_value = collateral_value(post_amount, prices[i], config.token_decimals, config.oracle_price_decimals);
            total_value = total_value + item_value;
            min_lt = Some(match min_lt {
                Some(current) => if current <= config.liquidation_threshold_bps {
                    current
                } else {
                    config.liquidation_threshold_bps
                },
                None => config.liquidation_threshold_bps,
            });
        }
        i = i + 1;
    }
    let lt_bps = match min_lt {
        Some(lt) => lt,
        None => {
            return Ok(false);
        },
    };
    let post_collateral_value = rounded_quote_amount(total_value, RoundingMode::Floor);
    match shared_health_factor_bps(post_collateral_value, debt, lt_bps) {
        Ok(hf) => Ok(hf >= 10_000),
        Err(e) => Err(convert_shared_error(e)),
    }
}

} // verus!
