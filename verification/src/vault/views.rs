//! Bounded, non-failing read views of the vault.
use vstd::prelude::*;

use crate::common::{fits_i128, trunc_div, AccountId};
use crate::vault::constants::PRICE_PRECISION;
use crate::vault::errors::VaultError;
use crate::vault::storage::VaultState;
use crate::vault::types::CollateralAsset;

verus! {

/// Version the read API reports.
pub const CONTRACT_VERSION: u32 = 1;

/// Snapshot of the vault's configuration.
#[derive(Debug, Clone, Copy, PartialEq, Eq, Structural)]
pub struct VaultStatus {
    pub version: u32,
    pub initialized: bool,
    pub paused: bool,
    pub admin: Option<AccountId>,
    pub supported_assets_count: u32,
    pub lending_pool: Option<AccountId>,
    pub oracle: Option<AccountId>,
    pub liquidation_engine: Option<AccountId>,
}

/// Snapshot of a user's position.
#[derive(Debug, Clone, PartialEq, Eq)]
pub struct UserPositionView {
    pub user: AccountId,
    pub collateral_assets: Vec<CollateralAsset>,
    pub total_collateral_value: Option<i128>,
    pub position_count: u32,
}

/// The vault's configuration; `NotInitialized` without an administrator.
/// The lending pool is the one under the alternative key when set, else the
/// canonical one.
pub fn get_config(state: &VaultState) -> (r: Result<VaultStatus, VaultError>)
    requires
        state.supported().len() <= u32::MAX,
    ensures
        r == (if state.admin is None {
            Err(VaultError::NotInitialized)
        } else {
            Ok::<VaultStatus, VaultError>(
                VaultStatus {
                    version: CONTRACT_VERSION,
                    initialized: true,
                    paused: state.paused,
                    admin: state.admin,
                    supported_assets_count: state.supported().len() as u32,
                    lending_pool: if state.pool is Some { state.pool } else { state.lending_pool },
                    oracle: state.oracle,
                    liquidation_engine: state.liquidation_engine,
                },
            )
        }),
{
    if !state.has_admin() {
        return Err(VaultError::NotInitialized);
    }
    let lending_pool = match state.get_pool() {
        Some(p) => Some(p),
        None => state.get_lending_pool(),
    };
    Ok(VaultStatus {
        version: CONTRACT_VERSION,
        initialized: true,
        paused: state.is_paused(),
        admin: state.get_admin(),
        supported_assets_count: state.supported_asset_count(),
        lending_pool,
        oracle: state.get_oracle(),
        liquidation_engine: state.get_liquidation_engine(),
    })
}

/// Quote value of the first `n` entries at optional prices: `None` when a
/// price is missing or a product or sum overflows.
pub open spec fn optional_valuation(items: Seq<CollateralAsset>, prices: Seq<Option<i128>>, n: nat) -> Option<int>
    decreases n,
{
    if n == 0 {
        Some(0)
    } else {
        match optional_valuation(items, prices, (n - 1) as nat) {
            None => None,
            Some(t) => match prices[n - 1] {
                None => None,
                Some(p) => {
                    let product = items[n - 1].amount * p;
                    if !fits_i128(product) {
                        None
                    } else if !fits_i128(t + trunc_div(product, PRICE_PRECISION as int)) {
                        None
                    } else {
                        Some(t + trunc_div(product, PRICE_PRECISION as int))
                    }
                },
            },
        }
    }
}

/// Once a prefix of the optional valuation is `None`, every longer one is.
proof fn lemma_optional_none_sticky(items: Seq<CollateralAsset>, prices: Seq<Option<i128>>, k: nat, n: nat)
    requires
        k <= n,
        optional_valuation(items, prices, k) is None,
    ensures
        optional_valuation(items, prices, n) is None,
    decreases n - k,
{
    if k < n {
        lemma_optional_none_sticky(items, prices, k, (n - 1) as nat);
    }
}

/// Total quote value of `collateral` at `prices` (what the oracle reports for
/// each entry, `None` when it has no price); `None` instead of failing when
/// the oracle is not configured, a price is missing, or arithmetic
/// overflows.
pub fn compute_total_value(state: &VaultState, collateral: &Vec<CollateralAsset>, prices: &Vec<Option<i128>>) -> (r: Option<i128>)
    requires
        prices@.len() == collateral@.len(),
    ensures
        r == (if state.oracle is None {
            None::<i128>
        } else {
            match optional_valuation(collateral@, prices@, collateral@.len()) {
                Some(v) => Some(v as i128),
                None => None,
            }
        }),
{
    if state.get_oracle().is_none() {
        return None;
    }
    let mut total: i128 = 0;
    let mut i: usize = 0;
    while i < collateral.len()
        invariant
            prices@.len() == collateral@.len(),
            i <= collateral@.len(),
            optional_valuation(collateral@, prices@, i as nat) == Some(total as int),
            state.oracle is Some,
        decreases collateral@.len() - i,
    {
        let price = match prices[i] {
            Some(p) => p,
            None => {
                proof {
                    lemma_optional_none_sticky(collateral@, prices@, (i + 1) as nat, collateral@.len());
                }
                return None;
            },
        };
        let product = match collateral[i].amount.checked_mul(price) {
            Some(p) => p,
            None => {
                proof {
                    lemma_optional_none_sticky(collateral@, prices@, (i + 1) as nat, collateral@.len());
                }
                return None;
            },
        };
        let value = match product.checked_div(PRICE_PRECISION) {
            Some(v) => v,
            None => {
                proof {
                    lemma_optional_none_sticky(collateral@, prices@, (i + 1) as nat, collateral@.len());
                }
                return None;
            },
        };
        total = match total.checked_add(value) {
            Some(t) => t,
            None => {
                proof {
                    lemma_optional_none_sticky(collateral@, prices@, (i + 1) as nat, collateral@.len());
                }
                return None;
            },
        };
        i = i + 1;
    }
    Some(total)
}

/// A snapshot of `user`'s position with its total value at `prices` (the
/// oracle's answer for each entry, in position order; ignored without a
/// position). `NotInitialized` without an administrator.
pub fn get_user_view(state: &VaultState, user: AccountId, prices: &Vec<Option<i128>>) -> (r: Result<UserPositionView, VaultError>)
    requires
        state.wf(),
        state.has_position(user) ==> prices@.len() == state.position_items(user).len(),
        state.position_items(user).len() <= u32::MAX,
    ensures
        match r {
            Err(e) => state.admin is None && e == VaultError::NotInitialized,
            Ok(v) => {
                &&& state.admin is Some
                &&& v.user == user
                &&& if state.has_position(user) {
                    &&& v.collateral_assets@ == state.position_items(user)
                    &&& v.position_count == state.position_items(user).len()
                    &&& v.total_collateral_value == (if state.oracle is None {
                        None::<i128>
                    } else {
                        match optional_valuation(state.position_items(user), prices@, state.position_items(user).len()) {
                            Some(t) => Some(t as i128),
                            None => None,
                        }
                    })
                } else {
                    &&& v.collateral_assets@ == Seq::<CollateralAsset>::empty()
                    &&& v.position_count == 0
                    &&& v.total_collateral_value is None
                }
            },
        },
{
    if !state.has_admin() {
        return Err(VaultError::NotInitialized);
    }
    match state.get_position(user) {
        Some(pos) => {
            let count = pos.collateral.len() as u32;
            let total = compute_total_value(state, &pos.collateral, prices);
            Ok(UserPositionView { user, collateral_assets: pos.collateral, total_collateral_value: total, position_count: count })
        },
        None => Ok(UserPositionView { user, collateral_assets: Vec::new(), total_collateral_value: None, position_count: 0 }),
    }
}

/// All supported assets in slot order; `NotInitialized` without an
/// administrator.
pub fn get_supported_assets_list(state: &VaultState) -> (r: Result<Vec<AccountId>, VaultError>)
    ensures
        match r {
            Ok(v) => state.admin is Some && v@ == state.supported(),
            Err(e) => state.admin is None && e == VaultError::NotInitialized,
        },
{
    if !state.has_admin() {
        return Err(VaultError::NotInitialized);
    }
    Ok(state.get_supported_assets())
}

} // verus!
