use lending_protocol::vault::admin::{
    pause, pause_operation, set_admin, set_lending_pool, set_liquidation_engine, set_oracle, unpause_operation,
};
use lending_protocol::vault::assets::{add_supported_asset, get_asset_config, is_supported_asset, remove_supported_asset, set_asset_config};
use lending_protocol::vault::contract::VaultContract;
use lending_protocol::vault::errors::VaultError;
use lending_protocol::vault::risk::required_collateral_for_debt;
use lending_protocol::vault::storage::VaultState;
use lending_protocol::vault::types::{AssetConfig, PauseFlag};

const ADMIN: u64 = 1;
const USER: u64 = 2;
const ORACLE: u64 = 3;
const POOL: u64 = 4;
const ENGINE: u64 = 5;
const TOKEN: u64 = 6;
const OTHER: u64 = 7;

fn setup() -> VaultState {
    let mut state = VaultState::new();
    VaultContract::initialize(&mut state, ADMIN, POOL, ORACLE, ENGINE).unwrap();
    add_supported_asset(&mut state, TOKEN).unwrap();
    state
}

fn price_list(state: &VaultState, price: i128) -> Vec<i128> {
    match state.get_position(USER) {
        Some(p) => p.collateral.iter().map(|_| price).collect(),
        None => vec![],
    }
}

fn withdraw(state: &mut VaultState, amount: i128, debt: i128, price: i128) -> Result<(), VaultError> {
    let prices = price_list(state, price);
    VaultContract::withdraw(state, USER, TOKEN, amount, debt, &prices, Some(price))
}

#[test]
fn test_admin_test_initialize_success() {
    let state = setup();
    assert_eq!(state.get_admin(), Some(ADMIN));
    assert_eq!(state.get_lending_pool(), Some(POOL));
    assert_eq!(state.get_oracle(), Some(ORACLE));
    assert_eq!(state.get_liquidation_engine(), Some(ENGINE));
}

#[test]
fn test_admin_test_initialize_duplicate_fails() {
    let mut state = setup();
    assert_eq!(VaultContract::initialize(&mut state, 11, 12, 13, 14), Err(VaultError::AlreadyInitialized));
}

#[test]
fn test_initialize_pool_equals_oracle_fails() {
    let mut state = VaultState::new();
    assert_eq!(VaultContract::initialize(&mut state, ADMIN, 20, 20, ENGINE), Err(VaultError::InvalidAddress));
}

#[test]
fn test_initialize_sets_paused_false() {
    let mut state = setup();
    assert_eq!(unpause_operation(&mut state, PauseFlag::Deposit), Err(VaultError::NotPaused));
    assert!(!state.is_paused());
}

#[test]
fn test_set_lending_pool_oracle_collision_fails() {
    let mut state = setup();
    assert_eq!(set_lending_pool(&mut state, ORACLE), Err(VaultError::InvalidAddress));
}

#[test]
fn test_set_oracle_lending_pool_collision_fails() {
    let mut state = setup();
    assert_eq!(set_oracle(&mut state, POOL), Err(VaultError::InvalidAddress));
}

#[test]
fn test_admin_test_set_admin_success() {
    let mut state = setup();
    set_admin(&mut state, OTHER).unwrap();
    assert_eq!(state.get_admin(), Some(OTHER));
}

#[test]
fn test_pause_success() {
    let mut state = setup();
    pause_operation(&mut state, PauseFlag::Deposit).unwrap();
    assert!(state.is_operation_paused(&PauseFlag::Deposit));
}

#[test]
fn test_pause_blocks_deposit() {
    let mut state = setup();
    pause_operation(&mut state, PauseFlag::Deposit).unwrap();
    assert_eq!(VaultContract::deposit(&mut state, USER, TOKEN, 500), Err(VaultError::VaultPaused));
}

#[test]
fn test_pause_blocks_withdraw() {
    let mut state = setup();
    VaultContract::deposit(&mut state, USER, TOKEN, 500).unwrap();
    pause_operation(&mut state, PauseFlag::Withdraw).unwrap();
    assert_eq!(withdraw(&mut state, 100, 0, 10_000_000), Err(VaultError::VaultPaused));
}

#[test]
fn test_admin_test_double_pause_fails() {
    let mut state = setup();
    pause_operation(&mut state, PauseFlag::Deposit).unwrap();
    assert_eq!(pause_operation(&mut state, PauseFlag::Deposit), Err(VaultError::AlreadyPaused));
}

#[test]
fn test_unpause_success() {
    let mut state = setup();
    pause_operation(&mut state, PauseFlag::Deposit).unwrap();
    unpause_operation(&mut state, PauseFlag::Deposit).unwrap();
    VaultContract::deposit(&mut state, USER, TOKEN, 500).unwrap();
    assert_eq!(state.get_position_balance(USER, TOKEN), 500);
}

#[test]
fn test_admin_test_unpause_when_not_paused_fails() {
    let mut state = setup();
    assert!(unpause_operation(&mut state, PauseFlag::Deposit).is_err());
}

#[test]
fn test_remove_supported_asset_success() {
    let mut state = setup();
    assert!(is_supported_asset(&state, TOKEN));
    remove_supported_asset(&mut state, TOKEN).unwrap();
    assert!(!is_supported_asset(&state, TOKEN));
}

#[test]
fn test_remove_supported_asset_non_existent_fails() {
    let mut state = setup();
    assert!(remove_supported_asset(&mut state, OTHER).is_err());
}

#[test]
fn test_remove_supported_asset_blocks_deposit() {
    let mut state = setup();
    remove_supported_asset(&mut state, TOKEN).unwrap();
    assert_eq!(VaultContract::deposit(&mut state, USER, TOKEN, 500), Err(VaultError::UnsupportedAsset));
}

#[test]
fn test_remove_supported_asset_with_open_position_fails() {
    let mut state = setup();
    VaultContract::deposit(&mut state, USER, TOKEN, 500).unwrap();
    assert_eq!(remove_supported_asset(&mut state, TOKEN), Err(VaultError::AssetHasOpenPositions));
}

#[test]
fn test_set_admin_same_address() {
    let mut state = setup();
    assert_eq!(set_admin(&mut state, ADMIN), Err(VaultError::AlreadyAdmin));
}

#[test]
fn test_uninitialized_admin_setters_return_err() {
    let mut state = VaultState::new();
    assert_eq!(set_lending_pool(&mut state, OTHER), Err(VaultError::NotInitialized));
    assert_eq!(set_oracle(&mut state, OTHER), Err(VaultError::NotInitialized));
    assert_eq!(set_liquidation_engine(&mut state, OTHER), Err(VaultError::NotInitialized));
    assert_eq!(pause_operation(&mut state, PauseFlag::Deposit), Err(VaultError::NotInitialized));
    assert_eq!(unpause_operation(&mut state, PauseFlag::Deposit), Err(VaultError::NotInitialized));
    assert_eq!(state.get_admin(), None);
}

#[test]
fn test_uninitialized_set_admin_returns_err() {
    let mut state = VaultState::new();
    assert_eq!(set_admin(&mut state, OTHER), Err(VaultError::InvalidInputs));
}

#[test]
fn test_withdraw_success() {
    let mut state = setup();
    VaultContract::deposit(&mut state, USER, TOKEN, 500).unwrap();
    withdraw(&mut state, 500, 0, 1_000_000_000).unwrap();
    assert_eq!(state.get_position_balance(USER, TOKEN), 0);
}

#[test]
fn test_withdraw_partial() {
    let mut state = setup();
    VaultContract::deposit(&mut state, USER, TOKEN, 500).unwrap();
    withdraw(&mut state, 200, 0, 1_000_000_000).unwrap();
    assert_eq!(state.get_position_balance(USER, TOKEN), 300);
}

#[test]
fn test_withdraw_clears_position_on_zero() {
    let mut state = setup();
    VaultContract::deposit(&mut state, USER, TOKEN, 500).unwrap();
    assert!(state.get_position_index().contains(&USER));
    withdraw(&mut state, 500, 0, 1_000_000_000).unwrap();
    assert!(!state.get_position_index().contains(&USER));
}

#[test]
fn test_withdraw_exceeds_balance_fails() {
    let mut state = setup();
    VaultContract::deposit(&mut state, USER, TOKEN, 500).unwrap();
    assert_eq!(withdraw(&mut state, 600, 0, 1_000_000_000), Err(VaultError::InsufficientCollateral));
}

#[test]
fn test_withdraw_zero_amount_fails() {
    let mut state = setup();
    VaultContract::deposit(&mut state, USER, TOKEN, 500).unwrap();
    assert_eq!(withdraw(&mut state, 0, 0, 1_000_000_000), Err(VaultError::InvalidAmount));
}

#[test]
fn test_withdraw_no_position_fails() {
    let mut state = setup();
    assert_eq!(withdraw(&mut state, 100, 0, 1_000_000_000), Err(VaultError::NoPosition));
}

#[test]
fn test_withdraw_when_paused_fails() {
    let mut state = setup();
    VaultContract::deposit(&mut state, USER, TOKEN, 500).unwrap();
    pause(&mut state).unwrap();
    assert_eq!(withdraw(&mut state, 100, 0, 1_000_000_000), Err(VaultError::VaultPaused));
}

#[test]
fn test_withdraw_collateral_ratio_check() {
    let mut state = setup();
    VaultContract::deposit(&mut state, USER, TOKEN, 500).unwrap();
    assert_eq!(withdraw(&mut state, 101, 400, 10_000_000), Err(VaultError::BelowMinCollateralRatio));
    withdraw(&mut state, 50, 400, 10_000_000).unwrap();
    assert_eq!(state.get_position_balance(USER, TOKEN), 450);
}

#[test]
fn deposit_then_withdraw_restores_balances() {
    let mut state = setup();
    VaultContract::deposit(&mut state, OTHER, TOKEN, 70).unwrap();
    VaultContract::deposit(&mut state, USER, TOKEN, 30).unwrap();
    withdraw(&mut state, 30, 0, 10_000_000).unwrap();
    assert_eq!(state.get_position_balance(USER, TOKEN), 0);
    assert_eq!(state.get_position_balance(OTHER, TOKEN), 70);
}

#[test]
fn deposit_rejects_non_positive_and_unsupported() {
    let mut state = setup();
    assert_eq!(VaultContract::deposit(&mut state, USER, TOKEN, 0), Err(VaultError::InvalidInputs));
    assert_eq!(VaultContract::deposit(&mut state, USER, OTHER, 10), Err(VaultError::UnsupportedAsset));
    VaultContract::deposit(&mut state, USER, TOKEN, i128::MAX).unwrap();
    assert_eq!(VaultContract::deposit(&mut state, USER, TOKEN, 1), Err(VaultError::MathOverflow));
}

#[test]
fn seize_collateral_by_registered_engine() {
    let mut state = setup();
    VaultContract::deposit(&mut state, USER, TOKEN, 500).unwrap();
    assert_eq!(VaultContract::seize_collateral(&mut state, OTHER, USER, TOKEN, 100), Err(VaultError::Unauthorized));
    assert_eq!(VaultContract::seize_collateral(&mut state, ENGINE, USER, TOKEN, 600), Err(VaultError::InsufficientCollateral));
    VaultContract::seize_collateral(&mut state, ENGINE, USER, TOKEN, 200).unwrap();
    assert_eq!(state.get_position_balance(USER, TOKEN), 300);
    assert_eq!(VaultContract::seize_collateral(&mut state, ENGINE, OTHER, TOKEN, 1), Err(VaultError::NoPosition));
}

#[test]
fn asset_config_defaults_and_updates() {
    let mut state = setup();
    let config = get_asset_config(&state, TOKEN).unwrap();
    assert_eq!(config, AssetConfig { token_decimals: 7, oracle_price_decimals: 7, max_ltv_bps: 7_000, liquidation_threshold_bps: 8_000 });
    set_asset_config(&mut state, TOKEN, 6, 8, 6_000, 7_500).unwrap();
    assert_eq!(get_asset_config(&state, TOKEN).unwrap().max_ltv_bps, 6_000);
    assert_eq!(set_asset_config(&mut state, TOKEN, 6, 8, 8_000, 7_500), Err(VaultError::InvalidAssetConfig));
}

#[test]
fn collateral_value_and_health_factor() {
    let mut state = setup();
    VaultContract::deposit(&mut state, USER, TOKEN, 500).unwrap();
    let prices = price_list(&state, 10_000_000);
    assert_eq!(VaultContract::get_collateral_value(&state, USER, &prices), Ok(500));
    assert_eq!(VaultContract::get_health_factor(&state, USER, 0, &prices), Ok(i128::MAX));
}

#[test]
fn vault_pause_then_unpause_restores_mask() {
    let mut state = setup();
    pause_operation(&mut state, PauseFlag::Liquidation).unwrap();
    let mask = state.get_pause_mask();
    pause_operation(&mut state, PauseFlag::Recovery).unwrap();
    assert_eq!(state.get_pause_mask(), mask | 16);
    unpause_operation(&mut state, PauseFlag::Recovery).unwrap();
    assert_eq!(state.get_pause_mask(), mask);
    assert_eq!(mask, 8);
}

#[test]
fn required_collateral_is_rounded_up() {
    assert_eq!(required_collateral_for_debt(1_000, 11_000), 1_100);
    assert_eq!(required_collateral_for_debt(1, 11_000), 2);
    assert_eq!(required_collateral_for_debt(0, 11_000), 0);
}
