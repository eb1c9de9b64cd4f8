//! Protocol-wide constants, errors and arithmetic shared by the vault, the
//! pool and the liquidation engine.
use vstd::prelude::*;

#[allow(unused_imports)]
use vstd::arithmetic::div_mod::*;

verus! {

/// Identifier of an account or contract on the ledger.
pub type AccountId = u64;

/// Denominator of every basis-point value: 10_000 bps = 100%.
pub const BPS_DENOMINATOR: i128 = 10_000;

/// Fixed-point precision of quote-currency values (7 decimals, $1 = 10^7).
pub const PROTOCOL_QUOTE_PRECISION: i128 = 10_000_000;

/// A health factor at or above this many bps is healthy (1.00).
pub const HEALTHY_HF_BPS: i128 = 10_000;

/// Health factor a partial liquidation aims to restore (1.10).
pub const TARGET_HF_BPS: i128 = 11_000;

/// Bonus paid to liquidators on the repaid value (8%).
pub const LIQUIDATION_BONUS_BPS: u32 = 800;

/// Largest share of a debt that one partial liquidation may repay (50%).
pub const CLOSE_FACTOR_BPS: u32 = 5_000;

/// Smallest non-zero debt that may remain after a repayment ($1.00).
pub const MIN_REMAINING_DEBT: i128 = 10_000_000;

/// Default origination loan-to-value of a newly listed asset (70%).
pub const DEFAULT_MAX_LTV_BPS: u32 = 7_000;

/// Default liquidation threshold of a newly listed asset (80%).
pub const DEFAULT_LIQUIDATION_THRESHOLD_BPS: u32 = 8_000;

/// Borrow rate of the first protocol version (8% a year).
pub const V1_BORROW_APR_BPS: u32 = 800;

/// Seconds in a 365-day year, the period of an annual rate.
pub const SECONDS_PER_YEAR: u64 = 31_536_000;

/// Errors of the shared arithmetic.
#[derive(Debug, Clone, Copy, PartialEq, Eq, Structural)]
pub enum SharedError {
    InvalidAmount,
    Overflow,
    InvalidBps,
    NotImplemented,
    DivisionByZero,
}

/// Truncating integer division (rounds toward zero), as `i128::checked_div`
/// computes it.
pub open spec fn trunc_div(x: int, d: int) -> int {
    if x == 0 {
        0
    } else if x > 0 && d > 0 {
        x / d
    } else if x < 0 && d < 0 {
        (-x) / (-d)
    } else if x < 0 {
        -((-x) / d)
    } else {
        -(x / (-d))
    }
}

/// Whether `x` is representable as an `i128`.
pub open spec fn fits_i128(x: int) -> bool {
    i128::MIN <= x <= i128::MAX
}

/// The mathematical ceiling of `a / b` (for `b != 0`).
pub open spec fn ceil_div_spec(a: int, b: int) -> int {
    if b > 0 {
        -((-a) / b)
    } else {
        -(a / (-b))
    }
}

/// `q` is the ceiling of `a / b` exactly when `q` is the least integer whose
/// multiple of `b` reaches `a` (in the direction of `b`'s sign).
pub proof fn lemma_ceil_div_char(a: int, b: int, q: int)
    requires
        b != 0,
        b > 0 ==> (q * b >= a && (q - 1) * b < a),
        b < 0 ==> (q * b <= a && (q - 1) * b > a),
    ensures
        q == ceil_div_spec(a, b),
{
    if b > 0 {
        lemma_fundamental_div_mod(-a, b);
        let f = (-a) / b;
        let m = (-a) % b;
        assert(0 <= m < b);
        // -a == b * f + m, so a == (-f) * b - m
        assert(((-f) * b) == -(b * f)) by (nonlinear_arith);
        assert((q + f) * b == q * b + b * f) by (nonlinear_arith);
        assert((q + f) * b >= -m);
        assert((q + f) * b < b - m) by (nonlinear_arith)
            requires
                (q - 1) * b < a,
                a == -(b * f) - m,
                b > 0,
        ;
        assert(q + f == 0) by (nonlinear_arith)
            requires
                (q + f) * b >= -m,
                (q + f) * b < b - m,
                0 <= m < b,
        ;
    } else {
        let nb = -b;
        lemma_fundamental_div_mod(a, nb);
        let f = a / nb;
        let m = a % nb;
        assert(0 <= m < nb);
        // a == nb * f + m
        assert(q * b == -(q * nb)) by (nonlinear_arith)
            requires
                nb == -b,
        ;
        assert((q - 1) * b == -((q - 1) * nb)) by (nonlinear_arith)
            requires
                nb == -b,
        ;
        assert(q + f == 0) by (nonlinear_arith)
            requires
                -(q * nb) <= nb * f + m,
                -((q - 1) * nb) > nb * f + m,
                0 <= m < nb,
                nb > 0,
        ;
    }
}

/// Ceiling division: the least integer `q` with `q * b >= a` (for `b > 0`;
/// mirrored for `b < 0`). `DivisionByZero` when `b == 0`; `Overflow` when the
/// quotient does not fit (`i128::MIN` divided by `-1`).
pub fn ceil_div(a: i128, b: i128) -> (r: Result<i128, SharedError>)
    ensures
        r == (if b == 0 {
            Err(SharedError::DivisionByZero)
        } else if fits_i128(ceil_div_spec(a as int, b as int)) {
            Ok::<i128, SharedError>(ceil_div_spec(a as int, b as int) as i128)
        } else {
            Err(SharedError::Overflow)
        }),
{
    if b == 0 {
        return Err(SharedError::DivisionByZero);
    }
    if a == i128::MIN && b == -1 {
        proof {
            lemma_ceil_div_char(a as int, b as int, -(a as int));
        }
        return Err(SharedError::Overflow);
    }
    proof {
        lemma_trunc_div_fits(a as int, b as int);
        lemma_trunc_div_rem(a as int, b as int);
    }
    let q = match a.checked_div(b) {
        Some(q) => q,
        None => {
            return Err(SharedError::Overflow);
        },
    };
    let rem = match a.checked_rem(b) {
        Some(rem) => rem,
        None => {
            return Err(SharedError::Overflow);
        },
    };
    assert(a == q * b + rem);
    if rem != 0 && ((rem > 0) == (b > 0)) {
        proof {
            lemma_round_up(a as int, b as int, q as int, rem as int);
        }
        Ok(q + 1)
    } else {
        proof {
            lemma_round_keep(a as int, b as int, q as int, rem as int);
        }
        Ok(q)
    }
}

/// Rounding up a division by a positive divisor lands between the dividend
/// and zero.
pub proof fn lemma_ceil_div_between(a: int, b: int)
    requires
        b >= 1,
    ensures
        a >= 0 ==> 0 <= ceil_div_spec(a, b) <= a,
        a < 0 ==> a <= ceil_div_spec(a, b) <= 0,
{
    lemma_fundamental_div_mod(-a, b);
    lemma_mod_bound(-a, b);
    let q = (-a) / b;
    let m = (-a) % b;
    assert(ceil_div_spec(a, b) == -q);
    assert(-a == b * q + m);
    if a >= 0 {
        assert(-a <= q <= 0) by (nonlinear_arith)
            requires
                -a == b * q + m,
                0 <= m < b,
                b >= 1,
                a >= 0,
        ;
    } else {
        assert(0 <= q <= -a) by (nonlinear_arith)
            requires
                -a == b * q + m,
                0 <= m < b,
                b >= 1,
                a < 0,
        ;
    }
}

/// Remainder of truncating division, as `i128::checked_rem` computes it.
pub open spec fn trunc_rem(x: int, d: int) -> int {
    if x == 0 {
        0
    } else if x > 0 && d > 0 {
        x % d
    } else if x < 0 && d < 0 {
        ((-x) % (-d)) * -1
    } else if x < 0 {
        ((-x) % d) * -1
    } else {
        x % (-d)
    }
}

/// Division of non-negative integers recomposes the dividend.
pub(crate) proof fn lemma_nonneg_div_rem(x: int, d: int)
    requires
        x >= 0,
        d > 0,
    ensures
        x == (x / d) * d + x % d,
        0 <= x % d < d,
        0 <= x / d <= x,
{
    lemma_fundamental_div_mod(x, d);
    lemma_mod_bound(x, d);
    assert(d * (x / d) == (x / d) * d) by (nonlinear_arith);
    assert(0 <= x / d <= x) by (nonlinear_arith)
        requires
            x == (x / d) * d + x % d,
            0 <= x % d < d,
            x >= 0,
            d > 0,
    ;
}

/// The truncated quotient and remainder of `i128` division recompose `a`,
/// the remainder carries `a`'s sign and is smaller than the divisor, and the
/// quotient is no larger than `a` in magnitude.
pub(crate) proof fn lemma_trunc_div_rem(a: int, b: int)
    requires
        b != 0,
    ensures
        a == trunc_div(a, b) * b + trunc_rem(a, b),
        a >= 0 ==> 0 <= trunc_rem(a, b),
        a <= 0 ==> trunc_rem(a, b) <= 0,
        b > 0 ==> -b < trunc_rem(a, b) < b,
        b < 0 ==> b < trunc_rem(a, b) < -b,
        a >= 0 ==> -a <= trunc_div(a, b) <= a,
        a <= 0 ==> a <= trunc_div(a, b) <= -a,
{
    if a == 0 {
        assert(0 * b == 0) by (nonlinear_arith);
    } else if a > 0 && b > 0 {
        lemma_nonneg_div_rem(a, b);
        assert(trunc_div(a, b) == a / b);
        assert(trunc_rem(a, b) == a % b);
    } else if a < 0 && b < 0 {
        lemma_nonneg_div_rem(-a, -b);
        let f = (-a) / (-b);
        let m = (-a) % (-b);
        assert(trunc_div(a, b) == f);
        assert(trunc_rem(a, b) == -m);
        assert(f * (-b) == -(f * b)) by (nonlinear_arith);
        assert(a == f * b + (-m));
    } else if a < 0 {
        lemma_nonneg_div_rem(-a, b);
        let f = (-a) / b;
        let m = (-a) % b;
        assert(trunc_div(a, b) == -f);
        assert(trunc_rem(a, b) == -m);
        assert((-f) * b == -(f * b)) by (nonlinear_arith);
        assert(a == (-f) * b + (-m));
    } else {
        lemma_nonneg_div_rem(a, -b);
        let f = a / (-b);
        let m = a % (-b);
        assert(trunc_div(a, b) == -f);
        assert(trunc_rem(a, b) == m);
        assert(f * (-b) == (-f) * b) by (nonlinear_arith);
        assert(a == (-f) * b + m);
    }
}

/// Truncating division fits in `i128` except for `i128::MIN / -1`.
pub(crate) proof fn lemma_trunc_div_fits(a: int, b: int)
    requires
        b != 0,
        fits_i128(a),
        !(a == i128::MIN && b == -1),
    ensures
        fits_i128(trunc_div(a, b)),
{
    lemma_trunc_div_rem(a, b);
    if a == i128::MIN {
        if b == 1 {
        } else if b > 1 {
            lemma_nonneg_div_rem(-a, b);
            assert((-a) / b <= (-a) / 2) by {
                vstd::arithmetic::div_mod::lemma_div_is_ordered_by_denominator(-a, 2, b);
            }
        } else {
            lemma_nonneg_div_rem(-a, -b);
            assert((-a) / (-b) <= (-a) / 2) by {
                vstd::arithmetic::div_mod::lemma_div_is_ordered_by_denominator(-a, 2, -b);
            }
        }
    }
}

/// An inexact division whose remainder has the divisor's sign rounds up by one.
proof fn lemma_round_up(a: int, b: int, q: int, rem: int)
    requires
        b != 0,
        a == q * b + rem,
        rem != 0,
        (rem > 0) == (b > 0),
        b > 0 ==> -b < rem < b,
        b < 0 ==> b < rem < -b,
        a >= 0 ==> -a <= q <= a,
        a <= 0 ==> a <= q <= -a,
        a >= 0 ==> 0 <= rem,
        a <= 0 ==> rem <= 0,
        fits_i128(a),
    ensures
        q + 1 == ceil_div_spec(a, b),
        q < i128::MAX,
{
    if b > 0 {
        // rem > 0 forces a > 0 and b >= 2, so q < a
        assert(rem > 0 && a > 0);
        assert(q * b < a);
        assert(q < a) by (nonlinear_arith)
            requires
                q * b < a,
                b >= 1,
                q <= a,
                a > 0,
        ;
    } else {
        // rem < 0 forces a < 0, and q <= -a, but -a may be 2^127 only when
        // the quotient is no more than half of it
        assert(rem < 0 && a < 0);
        assert(q * b > a);
        assert(b <= -2);
        assert(q < i128::MAX) by (nonlinear_arith)
            requires
                q * b > a,
                b <= -2,
                a <= q <= -a,
                a >= i128::MIN,
                a < 0,
        ;
    }
    assert((q + 1) * b == q * b + b) by (nonlinear_arith);
    lemma_ceil_div_char(a, b, q + 1);
}

/// An exact division, or one whose remainder has the opposite sign to the
/// divisor, already rounds up.
proof fn lemma_round_keep(a: int, b: int, q: int, rem: int)
    requires
        b != 0,
        a == q * b + rem,
        !(rem != 0 && ((rem > 0) == (b > 0))),
        b > 0 ==> -b < rem < b,
        b < 0 ==> b < rem < -b,
    ensures
        q == ceil_div_spec(a, b),
{
    assert((q - 1) * b == q * b - b) by (nonlinear_arith);
    lemma_ceil_div_char(a, b, q);
}

/// What `health_factor_bps` returns.
pub open spec fn health_factor_result(collateral_value: int, debt: int, lt_bps: int) -> Result<i128, SharedError> {
    if collateral_value < 0 || debt < 0 {
        Err(SharedError::InvalidAmount)
    } else if lt_bps > 10_000 {
        Err(SharedError::InvalidBps)
    } else if debt == 0 {
        Ok(i128::MAX)
    } else if !fits_i128(collateral_value * lt_bps) {
        Err(SharedError::Overflow)
    } else {
        Ok(((collateral_value * lt_bps) / debt) as i128)
    }
}

/// Health factor in bps: the collateral value weighted by the liquidation
/// threshold, divided by the debt, rounded down (10_000 = exactly at the
/// threshold). No debt is infinitely healthy (`i128::MAX`).
///
/// Errors: `InvalidAmount` for a negative value or debt, `InvalidBps` for a
/// threshold above 100%, `Overflow` when the weighted value does not fit.
pub fn health_factor_bps(collateral_value: i128, debt: i128, liquidation_threshold_bps: u32) -> (r: Result<i128, SharedError>)
    ensures
        r == health_factor_result(collateral_value as int, debt as int, liquidation_threshold_bps as int),
{
    if collateral_value < 0 || debt < 0 {
        return Err(SharedError::InvalidAmount);
    }
    if liquidation_threshold_bps > 10_000 {
        return Err(SharedError::InvalidBps);
    }
    if debt == 0 {
        return Ok(i128::MAX);
    }
    let weighted = match collateral_value.checked_mul(liquidation_threshold_bps as i128) {
        Some(w) => w,
        None => {
            return Err(SharedError::Overflow);
        },
    };
    proof {
        lemma_nonneg_div_rem(weighted as int, debt as int);
    }
    Ok(weighted / debt)
}

/// What `borrow_limit_from_collateral` returns.
pub open spec fn borrow_limit_result(collateral_value: int, max_ltv_bps: int) -> Result<i128, SharedError> {
    if collateral_value < 0 {
        Err(SharedError::InvalidAmount)
    } else if max_ltv_bps > 10_000 {
        Err(SharedError::InvalidBps)
    } else if !fits_i128(collateral_value * max_ltv_bps) {
        Err(SharedError::Overflow)
    } else {
        Ok(((collateral_value * max_ltv_bps) / 10_000) as i128)
    }
}

/// Largest debt a collateral value supports at an origination LTV:
/// `collateral_value * max_ltv_bps / 10_000`, rounded down.
pub fn borrow_limit_from_collateral(collateral_value: i128, max_ltv_bps: u32) -> (r: Result<i128, SharedError>)
    ensures
        r == borrow_limit_result(collateral_value as int, max_ltv_bps as int),
{
    if collateral_value < 0 {
        return Err(SharedError::InvalidAmount);
    }
    if max_ltv_bps > 10_000 {
        return Err(SharedError::InvalidBps);
    }
    let weighted = match collateral_value.checked_mul(max_ltv_bps as i128) {
        Some(w) => w,
        None => {
            return Err(SharedError::Overflow);
        },
    };
    proof {
        lemma_nonneg_div_rem(weighted as int, 10_000);
    }
    Ok(weighted / 10_000)
}

/// What `accrue_linear_interest` returns.
pub open spec fn linear_interest_result(principal: int, rate_bps: int, elapsed: int) -> Result<i128, SharedError> {
    if principal < 0 {
        Err(SharedError::InvalidAmount)
    } else if !fits_i128(principal * rate_bps) {
        Err(SharedError::Overflow)
    } else if !fits_i128((principal * rate_bps) / 10_000 * elapsed) {
        Err(SharedError::Overflow)
    } else {
        Ok((((principal * rate_bps) / 10_000 * elapsed) / (SECONDS_PER_YEAR as int)) as i128)
    }
}

/// Simple (non-compounding) interest on `principal` at an annual rate over
/// `elapsed` seconds: `principal * rate_bps / 10_000 * elapsed /
/// SECONDS_PER_YEAR`, each division rounding down.
pub fn accrue_linear_interest(principal: i128, rate_bps: u32, elapsed: u64) -> (r: Result<i128, SharedError>)
    ensures
        r == linear_interest_result(principal as int, rate_bps as int, elapsed as int),
{
    if principal < 0 {
        return Err(SharedError::InvalidAmount);
    }
    let scaled = match principal.checked_mul(rate_bps as i128) {
        Some(v) => v,
        None => {
            return Err(SharedError::Overflow);
        },
    };
    proof {
        lemma_nonneg_div_rem(scaled as int, 10_000);
    }
    let annual = scaled / 10_000;
    let over_time = match annual.checked_mul(elapsed as i128) {
        Some(v) => v,
        None => {
            return Err(SharedError::Overflow);
        },
    };
    proof {
        assert(over_time >= 0) by (nonlinear_arith)
            requires
                over_time == annual * elapsed,
                annual >= 0,
                elapsed >= 0,
        ;
        lemma_nonneg_div_rem(over_time as int, SECONDS_PER_YEAR as int);
    }
    Ok(over_time / (SECONDS_PER_YEAR as i128))
}

/// A borrower's debt: principal plus interest accrued at a fixed rate since
/// the last accrual.
#[derive(Debug, Clone, Copy, PartialEq, Eq, Structural)]
pub struct Debt {
    pub principal: i128,
    pub accrued_interest: i128,
    pub interest_rate_bps: u32,
    pub last_accrual_at: u64,
}

impl Debt {
    /// Principal plus accrued interest; `Overflow` when the sum does not fit.
    pub fn total(&self) -> (r: Result<i128, SharedError>)
        ensures
            r == (if fits_i128(self.principal + self.accrued_interest) {
                Ok::<i128, SharedError>((self.principal + self.accrued_interest) as i128)
            } else {
                Err(SharedError::Overflow)
            }),
    {
        match self.principal.checked_add(self.accrued_interest) {
            Some(t) => Ok(t),
            None => Err(SharedError::Overflow),
        }
    }
}

/// `10^n`.
pub open spec fn pow10(n: nat) -> int
    decreases n,
{
    if n == 0 {
        1
    } else {
        10 * pow10((n - 1) as nat)
    }
}

/// Powers of ten are positive and grow with the exponent.
pub proof fn lemma_pow10_monotone(m: nat, n: nat)
    requires
        m <= n,
    ensures
        0 < pow10(m) <= pow10(n),
    decreases n,
{
    if n > m {
        lemma_pow10_monotone(m, (n - 1) as nat);
    } else if n > 0 {
        lemma_pow10_monotone(0, (n - 1) as nat);
    }
}

/// `10^18` is the largest power used to scale token and price decimals.
pub proof fn lemma_pow10_18()
    ensures
        pow10(18) == 1_000_000_000_000_000_000,
{
    reveal_with_fuel(pow10, 19);
}

/// `10^exp` when it fits in an `i128`, `None` otherwise.
pub fn checked_pow10(exp: u32) -> (r: Option<i128>)
    ensures
        r == (if pow10(exp as nat) <= i128::MAX {
            Some(pow10(exp as nat) as i128)
        } else {
            None::<i128>
        }),
{
    let mut result: i128 = 1;
    let mut i: u32 = 0;
    while i < exp
        invariant
            i <= exp,
            result as int == pow10(i as nat),
            0 < result,
        decreases exp - i,
    {
        if result > i128::MAX / 10 {
            proof {
                lemma_pow10_monotone((i + 1) as nat, exp as nat);
            }
            return None;
        }
        result = result * 10;
        i = i + 1;
    }
    Some(result)
}

} // verus!
