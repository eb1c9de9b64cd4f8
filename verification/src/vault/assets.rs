//! Listing, configuring and delisting collateral assets.
use vstd::prelude::*;

use crate::common::AccountId;
use crate::vault::errors::VaultError;
use crate::vault::risk::{valid_risk_config, validate_asset_risk_config};
use crate::vault::storage::{swap_pop, VaultState};
use crate::vault::types::{default_asset_config, AssetConfig};

verus! {

/// Lists `asset` with the default configuration (administrator only).
///
/// Errors, leaving the state unchanged: `NotInitialized` without an
/// administrator; `AlreadySupported` when the asset is listed.
pub fn add_supported_asset(state: &mut VaultState, asset: AccountId) -> (r: Result<(), VaultError>)
    requires
        old(state).wf(),
    ensures
        final(state).wf(),
        r == (if old(state).admin is None {
            Err(VaultError::NotInitialized)
        } else if old(state).supported().contains(asset) {
            Err(VaultError::AlreadySupported)
        } else {
            Ok::<(), VaultError>(())
        }),
        r is Err ==> *final(state) == *old(state),
        r is Ok ==> {
            &&& final(state).supported() == old(state).supported().push(asset)
            &&& final(state).configs() == old(state).configs().insert(asset, default_asset_config())
            &&& final(state).same_scalars(old(state))
            &&& forall|u: AccountId, a: AccountId| #[trigger] final(state).balance(u, a) == old(state).balance(u, a)
            &&& forall|u: AccountId| #[trigger] final(state).user_asset_list(u) == old(state).user_asset_list(u)
            &&& final(state).positions() == old(state).positions()
        },
{
    if state.get_admin().is_none() {
        return Err(VaultError::NotInitialized);
    }
    if state.is_supported_asset(asset) {
        return Err(VaultError::AlreadySupported);
    }
    state.add_supported_asset(asset);
    state.set_asset_config(asset, &AssetConfig::default());
    Ok(())
}

/// Sets the risk configuration of a listed asset (administrator only).
/// While any user holds the asset, only the configuration already in force
/// may be written again.
///
/// Errors, leaving the state unchanged, in this order: `NotInitialized`;
/// `UnsupportedAsset` when the asset is not listed; `ImmutableMetadata` when
/// positions are open and the configuration differs from the one in force;
/// `InvalidAssetConfig` when the configuration is not acceptable.
pub fn set_asset_config(
    state: &mut VaultState,
    asset: AccountId,
    token_decimals: u32,
    oracle_price_decimals: u32,
    max_ltv_bps: u32,
    liquidation_threshold_bps: u32,
) -> (r: Result<(), VaultError>)
    requires
        old(state).wf(),
    ensures
        final(state).wf(),
        ({
            let config = AssetConfig { token_decimals, oracle_price_decimals, max_ltv_bps, liquidation_threshold_bps };
            &&& r == (if old(state).admin is None {
                Err(VaultError::NotInitialized)
            } else if !old(state).supported().contains(asset) {
                Err(VaultError::UnsupportedAsset)
            } else if (exists|u: AccountId| #[trigger] old(state).balance(u, asset) > 0) && old(state).config_of(asset) != config {
                Err(VaultError::ImmutableMetadata)
            } else if !valid_risk_config(token_decimals as int, oracle_price_decimals as int, max_ltv_bps as int, liquidation_threshold_bps as int) {
                Err(VaultError::InvalidAssetConfig)
            } else {
                Ok::<(), VaultError>(())
            })
            &&& (r is Ok ==> final(state).configs() == old(state).configs().insert(asset, config))
        }),
        r is Err ==> *final(state) == *old(state),
        r is Ok ==> {
            &&& final(state).supported() == old(state).supported()
            &&& final(state).same_scalars(old(state))
            &&& forall|u: AccountId, a: AccountId| #[trigger] final(state).balance(u, a) == old(state).balance(u, a)
            &&& forall|u: AccountId| #[trigger] final(state).user_asset_list(u) == old(state).user_asset_list(u)
            &&& final(state).positions() == old(state).positions()
        },
{
    if state.get_admin().is_none() {
        return Err(VaultError::NotInitialized);
    }
    if !state.is_supported_asset(asset) {
        return Err(VaultError::UnsupportedAsset);
    }
    if state.has_open_position(asset) {
        let existing = match state.get_asset_config(asset) {
            Some(c) => c,
            None => AssetConfig::default(),
        };
        if existing.token_decimals != token_decimals || existing.oracle_price_decimals != oracle_price_decimals
            || existing.max_ltv_bps != max_ltv_bps || existing.liquidation_threshold_bps != liquidation_threshold_bps {
            return Err(VaultError::ImmutableMetadata);
        }
    }
    validate_asset_risk_config(token_decimals, oracle_price_decimals, max_ltv_bps, liquidation_threshold_bps)?;
    let config = AssetConfig { token_decimals, oracle_price_decimals, max_ltv_bps, liquidation_threshold_bps };
    state.set_asset_config(asset, &config);
    Ok(())
}

/// The configuration in force for a listed asset; `UnsupportedAsset` when
/// it is not listed.
pub fn get_asset_config(state: &VaultState, asset: AccountId) -> (r: Result<AssetConfig, VaultError>)
    ensures
        r == (if state.supported().contains(asset) {
            Ok::<AssetConfig, VaultError>(state.config_of(asset))
        } else {
            Err(VaultError::UnsupportedAsset)
        }),
{
    if !state.is_supported_asset(asset) {
        return Err(VaultError::UnsupportedAsset);
    }
    Ok(state.get_asset_config_or_default(asset))
}

/// Delists `asset` (administrator only), moving the last listed asset into
/// its slot. Its configuration stays stored.
///
/// Errors, leaving the state unchanged: `NotInitialized`; `AssetNotFound`
/// when the asset is not listed; `AssetHasOpenPositions` while any user
/// holds it.
pub fn remove_supported_asset(state: &mut VaultState, asset: AccountId) -> (r: Result<(), VaultError>)
    requires
        old(state).wf(),
    ensures
        final(state).wf(),
        r == (if old(state).admin is None {
            Err(VaultError::NotInitialized)
        } else if !old(state).supported().contains(asset) {
            Err(VaultError::AssetNotFound)
        } else if exists|u: AccountId| #[trigger] old(state).balance(u, asset) > 0 {
            Err(VaultError::AssetHasOpenPositions)
        } else {
            Ok::<(), VaultError>(())
        }),
        r is Err ==> *final(state) == *old(state),
        r is Ok ==> {
            &&& final(state).supported() == swap_pop(old(state).supported(), asset)
            &&& final(state).same_except_supported(old(state))
        },
{
    if state.get_admin().is_none() {
        return Err(VaultError::NotInitialized);
    }
    if !state.is_supported_asset(asset) {
        return Err(VaultError::AssetNotFound);
    }
    if state.has_open_position(asset) {
        return Err(VaultError::AssetHasOpenPositions);
    }
    state.remove_supported_asset(asset);
    Ok(())
}

/// Whether `asset` is listed.
pub fn is_supported_asset(state: &VaultState, asset: AccountId) -> (r: bool)
    ensures
        r == state.supported().contains(asset),
{
    state.is_supported_asset(asset)
}

} // verus!
