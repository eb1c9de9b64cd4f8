//! The vault's entry points. Token transfers, authorisation, events and the
//! reads from the oracle and the lending pool happen around these functions:
//! the host hands them the prices and the debt it read, and performs the
//! transfer an operation calls for once it has returned `Ok`.
use vstd::prelude::*;

use crate::common::{fits_i128, trunc_div, AccountId};
use crate::vault::constants::{MIN_COLLATERAL_RATIO_PERCENT, PRICE_PRECISION};
use crate::vault::errors::VaultError;
use crate::vault::liquidation::{execute_seize_authorized, seize_result};
use crate::vault::position::{checked_credit, checked_debit, credited, debited};
use crate::vault::storage::VaultState;
use crate::vault::types::{pause_bit, CollateralAsset, PauseFlag, Position};
use crate::vault::storage::mask_of;

verus! {

/// The vault contract.
pub struct VaultContract;

/// Quote value of the first `n` collateral entries at the given prices:
/// each entry is `amount * price / PRICE_PRECISION` (truncated), summed in
/// order, failing with `MathOverflow` at the first product or sum that does
/// not fit.
pub open spec fn valuation(items: Seq<CollateralAsset>, prices: Seq<i128>, n: nat) -> Result<int, VaultError>
    decreases n,
{
    if n == 0 {
        Ok(0)
    } else {
        match valuation(items, prices, (n - 1) as nat) {
            Err(e) => Err(e),
            Ok(t) => {
                let p = items[n - 1].amount * prices[n - 1];
                if !fits_i128(p) {
                    Err(VaultError::MathOverflow)
                } else if !fits_i128(t + trunc_div(p, PRICE_PRECISION as int)) {
                    Err(VaultError::MathOverflow)
                } else {
                    Ok(t + trunc_div(p, PRICE_PRECISION as int))
                }
            },
        }
    }
}

/// Once a prefix of the valuation fails, every longer prefix fails the
/// same way.
pub proof fn lemma_valuation_err_sticky(items: Seq<CollateralAsset>, prices: Seq<i128>, k: nat, n: nat)
    requires
        k <= n,
        valuation(items, prices, k) is Err,
    ensures
        valuation(items, prices, n) == valuation(items, prices, k),
    decreases n - k,
{
    if k < n {
        lemma_valuation_err_sticky(items, prices, k, (n - 1) as nat);
    }
}

/// The `i`-th entry of a sequence of collateral entries.
pub open spec fn item_at(items: Seq<CollateralAsset>, i: int) -> CollateralAsset {
    items[i]
}

/// What `get_collateral_value` returns.
pub open spec fn collateral_value_result(state: VaultState, user: AccountId, prices: Seq<i128>) -> Result<int, VaultError> {
    if !state.has_position(user) {
        Err(VaultError::NoPosition)
    } else if state.oracle is None {
        Err(VaultError::OracleNotConfigured)
    } else {
        valuation(state.position_items(user), prices, state.position_items(user).len())
    }
}

/// What `is_withdrawal_safe` returns.
pub open spec fn withdrawal_safe_result(
    state: VaultState,
    user: AccountId,
    amount: int,
    debt: int,
    prices: Seq<i128>,
    asset_price: Option<i128>,
) -> Result<bool, VaultError> {
    if debt == 0 {
        Ok(true)
    } else {
        match collateral_value_result(state, user, prices) {
            Err(e) => Err(e),
            Ok(total) => match asset_price {
                None => Err(VaultError::PriceNotFound),
                Some(p) => {
                    let withdrawn = trunc_div(amount * p, PRICE_PRECISION as int);
                    if !fits_i128(amount * p) {
                        Err(VaultError::MathOverflow)
                    } else if total < withdrawn {
                        Ok(false)
                    } else if !fits_i128(debt * MIN_COLLATERAL_RATIO_PERCENT) {
                        Err(VaultError::MathOverflow)
                    } else {
                        Ok(total - withdrawn >= trunc_div(debt * MIN_COLLATERAL_RATIO_PERCENT, 100))
                    }
                },
            },
        }
    }
}

/// The collateral left after a withdrawal can be computed without overflow
/// (it can only overflow when the withdrawn value is negative).
pub open spec fn withdrawal_remainder_fits(
    state: VaultState,
    user: AccountId,
    amount: int,
    debt: int,
    prices: Seq<i128>,
    asset_price: Option<i128>,
) -> bool {
    debt != 0 ==> match collateral_value_result(state, user, prices) {
        Ok(total) => match asset_price {
            Some(p) => fits_i128(amount * p) ==> fits_i128(total - trunc_div(amount * p, PRICE_PRECISION as int)),
            None => true,
        },
        Err(_) => true,
    }
}

/// Whether the deposit of `asset` is blocked by either pause switch.
pub open spec fn deposit_paused(state: VaultState) -> bool {
    state.paused || mask_of(state.pause_mask) & pause_bit(PauseFlag::Deposit) != 0
}

/// Whether withdrawals are blocked by either pause switch.
pub open spec fn withdraw_paused(state: VaultState) -> bool {
    state.paused || mask_of(state.pause_mask) & pause_bit(PauseFlag::Withdraw) != 0
}

/// What `withdraw` returns.
pub open spec fn withdraw_result(
    state: VaultState,
    user: AccountId,
    asset: AccountId,
    amount: i128,
    debt: i128,
    prices: Seq<i128>,
    asset_price: Option<i128>,
) -> Result<(), VaultError> {
    if amount <= 0 {
        Err(VaultError::InvalidAmount)
    } else if withdraw_paused(state) {
        Err(VaultError::VaultPaused)
    } else if !state.supported().contains(asset) {
        Err(VaultError::UnsupportedAsset)
    } else if !state.has_position(user) {
        Err(VaultError::NoPosition)
    } else {
        match withdrawal_safe_result(state, user, amount as int, debt as int, prices, asset_price) {
            Err(e) => Err(e),
            Ok(false) => Err(VaultError::BelowMinCollateralRatio),
            Ok(true) => if state.balance(user, asset) < amount {
                Err(VaultError::InsufficientCollateral)
            } else {
                Ok(())
            },
        }
    }
}

impl VaultContract {
    /// Initialises the vault with its administrator and the three contracts
    /// it works with, and clears the circuit breaker.
    ///
    /// Errors, leaving the state unchanged: `AlreadyInitialized` when an
    /// administrator is recorded; `InvalidAddress` when the lending pool and
    /// the oracle are the same contract.
    pub fn initialize(
        state: &mut VaultState,
        admin: AccountId,
        lending_pool: AccountId,
        oracle: AccountId,
        liquidation_engine: AccountId,
    ) -> (r: Result<(), VaultError>)
        ensures
            r == (if old(state).admin is Some {
                Err(VaultError::AlreadyInitialized)
            } else if lending_pool == oracle {
                Err(VaultError::InvalidAddress)
            } else {
                Ok::<(), VaultError>(())
            }),
            r is Ok ==> *final(state) == (VaultState {
                admin: Some(admin),
                lending_pool: Some(lending_pool),
                oracle: Some(oracle),
                liquidation_engine: Some(liquidation_engine),
                paused: false,
                ..*old(state)
            }),
            r is Ok ==> crate::vault::admin::pool_oracle_distinct(*final(state)),
            r is Err ==> *final(state) == *old(state),
    {
        if state.has_admin() {
            return Err(VaultError::AlreadyInitialized);
        }
        if lending_pool == oracle {
            return Err(VaultError::InvalidAddress);
        }
        state.set_admin(admin);
        state.set_lending_pool(lending_pool);
        state.set_oracle(oracle);
        state.set_liquidation_engine(liquidation_engine);
        state.set_paused(false);
        Ok(())
    }

    /// Credits a deposit of `amount` of `asset` to `user` (who authorised
    /// it); the host then moves the tokens from the user to the vault.
    ///
    /// Errors, leaving the state unchanged, in this order: `InvalidInputs`
    /// for a non-positive amount; `VaultPaused` while deposits are paused;
    /// `UnsupportedAsset` for an unlisted asset; `MathOverflow` when the new
    /// balance would not fit.
    pub fn deposit(state: &mut VaultState, user: AccountId, asset: AccountId, amount: i128) -> (r: Result<(), VaultError>)
        requires
            old(state).wf(),
        ensures
            final(state).wf(),
            r == (if amount <= 0 {
                Err(VaultError::InvalidInputs)
            } else if deposit_paused(*old(state)) {
                Err(VaultError::VaultPaused)
            } else if !old(state).supported().contains(asset) {
                Err(VaultError::UnsupportedAsset)
            } else if !fits_i128(old(state).balance(user, asset) + amount) {
                Err(VaultError::MathOverflow)
            } else {
                Ok::<(), VaultError>(())
            }),
            r is Err ==> *final(state) == *old(state),
            r is Ok ==> credited(*old(state), *final(state), user, asset, old(state).balance(user, asset) + amount),
    {
        if amount <= 0 {
            return Err(VaultError::InvalidInputs);
        }
        if state.is_paused() || state.is_operation_paused(&PauseFlag::Deposit) {
            return Err(VaultError::VaultPaused);
        }
        if !state.is_supported_asset(asset) {
            return Err(VaultError::UnsupportedAsset);
        }
        match checked_credit(state, user, asset, amount) {
            Ok(_) => Ok(()),
            Err(_) => Err(VaultError::MathOverflow),
        }
    }

    /// The quote value of `user`'s collateral at `prices` (the oracle's
    /// price of each collateral entry, in position order): the sum of
    /// `amount * price / PRICE_PRECISION` over the entries.
    ///
    /// Errors: `NoPosition`; `OracleNotConfigured`; `MathOverflow`.
    pub fn get_collateral_value(state: &VaultState, user: AccountId, prices: &Vec<i128>) -> (r: Result<i128, VaultError>)
        requires
            state.wf(),
            state.has_position(user) ==> prices@.len() == state.position_items(user).len(),
        ensures
            match collateral_value_result(*state, user, prices@) {
                Ok(v) => r == Ok::<i128, VaultError>(v as i128),
                Err(e) => r == Err::<i128, VaultError>(e),
            },
    {
        let position = match state.get_position(user) {
            Some(p) => p,
            None => {
                return Err(VaultError::NoPosition);
            },
        };
        if state.get_oracle().is_none() {
            return Err(VaultError::OracleNotConfigured);
        }
        let ghost items = state.position_items(user);
        let mut total: i128 = 0;
        let mut i: usize = 0;
        while i < position.collateral.len()
            invariant
                position.collateral@ == items,
                prices@.len() == items.len(),
                i <= items.len(),
                valuation(items, prices@, i as nat) == Ok::<int, VaultError>(total as int),
                collateral_value_result(*state, user, prices@) == valuation(items, prices@, items.len()),
            decreases items.len() - i,
        {
            assert(item_at(items, i as int) == position.collateral@[i as int]);
            let item = position.collateral[i];
            let product = match item.amount.checked_mul(prices[i]) {
                Some(p) => p,
                None => {
                    proof {
                        lemma_valuation_err_sticky(items, prices@, (i + 1) as nat, items.len());
                    }
                    return Err(VaultError::MathOverflow);
                },
            };
            let value = match product.checked_div(PRICE_PRECISION) {
                Some(v) => v,
                None => {
                    return Err(VaultError::MathOverflow);
                },
            };
            total = match total.checked_add(value) {
                Some(t) => t,
                None => {
                    proof {
                        lemma_valuation_err_sticky(items, prices@, (i + 1) as nat, items.len());
                    }
                    return Err(VaultError::MathOverflow);
                },
            };
            i = i + 1;
        }
        Ok(total)
    }

    /// Whether withdrawing `amount` of an asset priced `asset_price` keeps
    /// `user`'s collateral at or above 110% of `debt`: always when there is
    /// no debt; otherwise the collateral value at `prices` minus the
    /// withdrawn value must reach `debt * 110 / 100`.
    ///
    /// Errors: those of `get_collateral_value`; `PriceNotFound` when the
    /// oracle has no price for the asset; `MathOverflow`.
    pub fn is_withdrawal_safe(
        state: &VaultState,
        user: AccountId,
        amount: i128,
        debt: i128,
        prices: &Vec<i128>,
        asset_price: Option<i128>,
    ) -> (r: Result<bool, VaultError>)
        requires
            state.wf(),
            state.has_position(user) ==> prices@.len() == state.position_items(user).len(),
            withdrawal_remainder_fits(*state, user, amount as int, debt as int, prices@, asset_price),
        ensures
            r == withdrawal_safe_result(*state, user, amount as int, debt as int, prices@, asset_price),
    {
        if debt == 0 {
            return Ok(true);
        }
        let total = match Self::get_collateral_value(state, user, prices) {
            Ok(t) => t,
            Err(e) => {
                return Err(e);
            },
        };
        let price = match asset_price {
            Some(p) => p,
            None => {
                return Err(VaultError::PriceNotFound);
            },
        };
        let product = match amount.checked_mul(price) {
            Some(p) => p,
            None => {
                return Err(VaultError::MathOverflow);
            },
        };
        let withdrawn_value = match product.checked_div(PRICE_PRECISION) {
            Some(v) => v,
            None => {
                return Err(VaultError::MathOverflow);
            },
        };
        if total < withdrawn_value {
            return Ok(false);
        }
        let remaining_value = total - withdrawn_value;
        let scaled_debt = match debt.checked_mul(MIN_COLLATERAL_RATIO_PERCENT) {
            Some(d) => d,
            None => {
                return Err(VaultError::MathOverflow);
            },
        };
        let required_collateral = match scaled_debt.checked_div(100) {
            Some(d) => d,
            None => {
                return Err(VaultError::MathOverflow);
            },
        };
        Ok(remaining_value >= required_collateral)
    }

    /// Whether the collateral left after withdrawing `amount` at
    /// `asset_price` can be computed (see `withdrawal_remainder_fits`): the
    /// condition `withdraw` and `is_withdrawal_safe` need of their inputs.
    pub fn withdrawal_remainder_computable(
        state: &VaultState,
        user: AccountId,
        amount: i128,
        debt: i128,
        prices: &Vec<i128>,
        asset_price: Option<i128>,
    ) -> (r: bool)
        requires
            state.wf(),
            state.has_position(user) ==> prices@.len() == state.position_items(user).len(),
        ensures
            r == withdrawal_remainder_fits(*state, user, amount as int, debt as int, prices@, asset_price),
    {
        if debt == 0 {
            return true;
        }
        let total = match Self::get_collateral_value(state, user, prices) {
            Ok(t) => t,
            Err(_) => {
                return true;
            },
        };
        let price = match asset_price {
            Some(p) => p,
            None => {
                return true;
            },
        };
        let product = match amount.checked_mul(price) {
            Some(p) => p,
            None => {
                return true;
            },
        };
        proof {
            crate::common::lemma_trunc_div_fits(product as int, PRICE_PRECISION as int);
        }
        match product.checked_div(PRICE_PRECISION) {
            Some(withdrawn) => total.checked_sub(withdrawn).is_some(),
            None => true,
        }
    }

    /// Debits a withdrawal of `amount` of `asset` from `user` (who
    /// authorised it), provided the remaining collateral still covers 110%
    /// of `debt` (the debt the lending pool reports, zero without a pool);
    /// the host then moves the tokens to the user. `prices` are the oracle
    /// prices of the position's entries in order, `asset_price` the
    /// oracle's price of `asset`.
    ///
    /// Errors, leaving the state unchanged, in this order: `InvalidAmount`;
    /// `VaultPaused` while withdrawals are paused; `UnsupportedAsset`;
    /// `NoPosition`; the errors of `is_withdrawal_safe`, or
    /// `BelowMinCollateralRatio` when it answers no;
    /// `InsufficientCollateral` when the balance is below `amount`.
    pub fn withdraw(
        state: &mut VaultState,
        user: AccountId,
        asset: AccountId,
        amount: i128,
        debt: i128,
        prices: &Vec<i128>,
        asset_price: Option<i128>,
    ) -> (r: Result<(), VaultError>)
        requires
            old(state).wf(),
            old(state).has_position(user) ==> prices@.len() == old(state).position_items(user).len(),
            withdrawal_remainder_fits(*old(state), user, amount as int, debt as int, prices@, asset_price),
        ensures
            final(state).wf(),
            r == withdraw_result(*old(state), user, asset, amount, debt, prices@, asset_price),
            r is Err ==> *final(state) == *old(state),
            r is Ok ==> debited(*old(state), *final(state), user, asset, old(state).balance(user, asset) - amount),
    {
        if amount <= 0 {
            return Err(VaultError::InvalidAmount);
        }
        if state.is_paused() || state.is_operation_paused(&PauseFlag::Withdraw) {
            return Err(VaultError::VaultPaused);
        }
        if !state.is_supported_asset(asset) {
            return Err(VaultError::UnsupportedAsset);
        }
        if state.get_position(user).is_none() {
            return Err(VaultError::NoPosition);
        }
        match Self::is_withdrawal_safe(state, user, amount, debt, prices, asset_price) {
            Ok(true) => {},
            Ok(false) => {
                return Err(VaultError::BelowMinCollateralRatio);
            },
            Err(e) => {
                return Err(e);
            },
        }
        match checked_debit(state, user, asset, amount) {
            Ok(_) => Ok(()),
            Err(e) => Err(e),
        }
    }

    /// Seizes collateral for the liquidation engine; see
    /// `execute_seize_authorized`.
    pub fn seize_collateral(
        state: &mut VaultState,
        liquidation_engine: AccountId,
        user: AccountId,
        asset: AccountId,
        amount: i128,
    ) -> (r: Result<(), VaultError>)
        requires
            old(state).wf(),
        ensures
            final(state).wf(),
            r == seize_result(*old(state), liquidation_engine, user, asset, amount),
            r is Err ==> *final(state) == *old(state),
            r is Ok ==> debited(*old(state), *final(state), user, asset, old(state).balance(user, asset) - amount),
    {
        execute_seize_authorized(state, liquidation_engine, user, asset, amount)
    }

    /// Checks a liquidation request from `liquidation_engine` (whose
    /// authorisation the host has checked) and returns the lending pool the
    /// host must ask whether `user` is liquidatable; its answer is the
    /// result of the request.
    ///
    /// Errors: `Unauthorized` when the engine is not the registered one;
    /// `NoPosition` when `user` holds no collateral.
    pub fn authorize_liquidation(state: &VaultState, liquidation_engine: AccountId, user: AccountId) -> (r: Result<AccountId, VaultError>)
        requires
            state.wf(),
            (state.liquidation_engine == Some(liquidation_engine) && state.has_position(user)) ==> state.lending_pool is Some,
        ensures
            r == (if state.liquidation_engine != Some(liquidation_engine) {
                Err(VaultError::Unauthorized)
            } else if !state.has_position(user) {
                Err(VaultError::NoPosition)
            } else {
                Ok::<AccountId, VaultError>(state.lending_pool->Some_0)
            }),
    {
        let stored_engine = match state.get_liquidation_engine() {
            Some(e) => e,
            None => {
                return Err(VaultError::Unauthorized);
            },
        };
        if liquidation_engine != stored_engine {
            return Err(VaultError::Unauthorized);
        }
        if state.get_position(user).is_none() {
            return Err(VaultError::NoPosition);
        }
        match state.get_lending_pool() {
            Some(p) => Ok(p),
            None => Ok(0),
        }
    }

    /// The position of `user`; `NoPosition` when the user holds nothing.
    pub fn get_position(state: &VaultState, user: AccountId) -> (r: Result<Position, VaultError>)
        requires
            state.wf(),
        ensures
            match r {
                Ok(p) => state.has_position(user) && p.user == user && p.collateral@ == state.position_items(user),
                Err(e) => !state.has_position(user) && e == VaultError::NoPosition,
            },
    {
        match state.get_position(user) {
            Some(p) => Ok(p),
            None => Err(VaultError::NoPosition),
        }
    }
}

impl VaultContract {
    /// Health factor of `user`'s position against `debt` (the debt the
    /// lending pool reports), valued at `prices` (the oracle price of each
    /// entry, in position order); see `risk::health_factor_bps`.
    pub fn get_health_factor(state: &VaultState, user: AccountId, debt: i128, prices: &Vec<i128>) -> (r: Result<i128, VaultError>)
        requires
            state.wf(),
            state.has_position(user) ==> {
                &&& state.oracle is Some
                &&& prices@.len() == state.position_items(user).len()
                &&& crate::vault::risk::normalized_valuation(*state, state.position_items(user), prices@, state.position_items(user).len()) is Some
            },
        ensures
            r == (if !state.has_position(user) {
                Err(VaultError::NoPosition)
            } else {
                crate::vault::risk::position_health_result(*state, user, debt as int, prices@)
            }),
    {
        crate::vault::risk::health_factor_bps(state, user, debt, prices)
    }
}

} // verus!
