use lending_protocol::vault::admin::{pause, set_liquidation_engine};
use lending_protocol::vault::assets::add_supported_asset;
use lending_protocol::vault::contract::VaultContract;
use lending_protocol::vault::errors::VaultError;
use lending_protocol::vault::storage::VaultState;

const ADMIN: u64 = 1;
const USER: u64 = 2;
const ORACLE: u64 = 3;
const POOL: u64 = 4;
const FIRST_ENGINE: u64 = 5;
const TOKEN: u64 = 6;
const ENGINE: u64 = 20;
const MALICIOUS_ENGINE: u64 = 21;
const TOKEN2: u64 = 22;

fn setup() -> VaultState {
    let mut state = VaultState::new();
    VaultContract::initialize(&mut state, ADMIN, POOL, ORACLE, FIRST_ENGINE).unwrap();
    add_supported_asset(&mut state, TOKEN).unwrap();
    set_liquidation_engine(&mut state, ENGINE).unwrap();
    state
}

fn setup_with_deposit() -> VaultState {
    let mut state = setup();
    VaultContract::deposit(&mut state, USER, TOKEN, 500).unwrap();
    state
}

fn seize(state: &mut VaultState, engine: u64, amount: i128) -> Result<(), VaultError> {
    VaultContract::seize_collateral(state, engine, USER, TOKEN, amount)
}

#[test]
fn test_authorize_liquidation_success() {
    let state = setup();
    assert_eq!(state.get_liquidation_engine(), Some(ENGINE));
}

#[test]
fn test_seize_collateral_emits_event() {
    let mut state = setup_with_deposit();
    assert!(seize(&mut state, ENGINE, 200).is_ok());
}

#[test]
fn test_seize_collateral_success() {
    let mut state = setup_with_deposit();
    assert!(seize(&mut state, ENGINE, 200).is_ok());
    assert_eq!(state.get_position_balance(USER, TOKEN), 300);
}

#[test]
fn test_seize_collateral_unauthorized_engine_fails() {
    let mut state = setup_with_deposit();
    assert_eq!(seize(&mut state, MALICIOUS_ENGINE, 200), Err(VaultError::Unauthorized));
}

#[test]
fn test_seize_collateral_paused_fails() {
    let mut state = setup_with_deposit();
    pause(&mut state).unwrap();
    assert_eq!(seize(&mut state, ENGINE, 200), Err(VaultError::VaultPaused));
}

#[test]
fn test_seize_zero_amount_fails() {
    let mut state = setup_with_deposit();
    assert_eq!(seize(&mut state, ENGINE, 0), Err(VaultError::InvalidAmount));
}

#[test]
fn test_seize_negative_amount_fails() {
    let mut state = setup_with_deposit();
    assert_eq!(seize(&mut state, ENGINE, -100), Err(VaultError::InvalidAmount));
}

#[test]
fn test_seize_i128_min_fails() {
    let mut state = setup_with_deposit();
    assert_eq!(seize(&mut state, ENGINE, i128::MIN), Err(VaultError::InvalidAmount));
}

#[test]
fn test_seize_negative_one_fails() {
    let mut state = setup_with_deposit();
    assert_eq!(seize(&mut state, ENGINE, -1), Err(VaultError::InvalidAmount));
}

#[test]
fn test_seize_zero_does_not_mutate_balance() {
    let mut state = setup_with_deposit();
    let before = state.get_position_balance(USER, TOKEN);
    let _ = seize(&mut state, ENGINE, 0);
    let after = state.get_position_balance(USER, TOKEN);
    assert_eq!(before, after);
    assert_eq!(after, 500);
}

#[test]
fn test_seize_negative_does_not_mutate_balance() {
    let mut state = setup_with_deposit();
    let before = state.get_position_balance(USER, TOKEN);
    let _ = seize(&mut state, ENGINE, -200);
    let after = state.get_position_balance(USER, TOKEN);
    assert_eq!(before, after);
    assert_eq!(after, 500);
}

#[test]
fn test_seize_zero_does_not_mutate_index() {
    let mut state = setup_with_deposit();
    assert!(state.get_position_index().contains(&USER));
    let _ = seize(&mut state, ENGINE, 0);
    assert!(state.get_position_index().contains(&USER));
}

#[test]
fn test_seize_negative_does_not_mutate_index() {
    let mut state = setup_with_deposit();
    assert!(state.get_position_index().contains(&USER));
    let _ = seize(&mut state, ENGINE, -1);
    assert!(state.get_position_index().contains(&USER));
}

#[test]
fn test_seize_insufficient_balance_fails() {
    let mut state = setup_with_deposit();
    assert_eq!(seize(&mut state, ENGINE, 600), Err(VaultError::InsufficientCollateral));
}

#[test]
fn test_seize_exact_balance_plus_one_fails() {
    let mut state = setup_with_deposit();
    assert_eq!(seize(&mut state, ENGINE, 501), Err(VaultError::InsufficientCollateral));
}

#[test]
fn test_seize_insufficient_does_not_mutate_balance() {
    let mut state = setup_with_deposit();
    let before = state.get_position_balance(USER, TOKEN);
    let _ = seize(&mut state, ENGINE, 501);
    let after = state.get_position_balance(USER, TOKEN);
    assert_eq!(before, after);
    assert_eq!(after, 500);
}

#[test]
fn test_liquidation_test_seize_no_position_fails() {
    let mut state = setup();
    assert_eq!(seize(&mut state, ENGINE, 200), Err(VaultError::NoPosition));
}

#[test]
fn test_seize_one_from_large_balance() {
    let mut state = setup_with_deposit();
    assert!(seize(&mut state, ENGINE, 1).is_ok());
    assert_eq!(state.get_position_balance(USER, TOKEN), 499);
}

#[test]
fn test_seize_exact_balance_full() {
    let mut state = setup_with_deposit();
    assert!(seize(&mut state, ENGINE, 500).is_ok());
    assert_eq!(state.get_position_balance(USER, TOKEN), 0);
}

#[test]
fn test_seize_full_removes_from_index() {
    let mut state = setup_with_deposit();
    assert!(state.get_position_index().contains(&USER));
    seize(&mut state, ENGINE, 500).unwrap();
    assert_eq!(state.get_position_balance(USER, TOKEN), 0);
    assert!(!state.get_position_index().contains(&USER));
}

#[test]
fn test_seize_partial_preserves_index_and_assets() {
    let mut state = setup_with_deposit();
    seize(&mut state, ENGINE, 300).unwrap();
    assert_eq!(state.get_position_balance(USER, TOKEN), 200);
    assert!(state.get_position_index().contains(&USER));
    let position = VaultContract::get_position(&state, USER).unwrap();
    assert_eq!(position.collateral.len(), 1);
    assert_eq!(position.collateral[0].amount, 200);
}

#[test]
fn test_seize_i128_max_fails_insufficient() {
    let mut state = setup_with_deposit();
    assert_eq!(seize(&mut state, ENGINE, i128::MAX), Err(VaultError::InsufficientCollateral));
}

#[test]
fn test_seize_multi_asset_only_affects_target() {
    let mut state = setup();
    add_supported_asset(&mut state, TOKEN2).unwrap();
    VaultContract::deposit(&mut state, USER, TOKEN, 500).unwrap();
    VaultContract::deposit(&mut state, USER, TOKEN2, 700).unwrap();
    seize(&mut state, ENGINE, 200).unwrap();
    assert_eq!(state.get_position_balance(USER, TOKEN), 300);
    assert_eq!(state.get_position_balance(USER, TOKEN2), 700);
    assert!(state.get_position_index().contains(&USER));
}

#[test]
fn test_invariants_after_partial_seize() {
    let mut state = setup_with_deposit();
    seize(&mut state, ENGINE, 150).unwrap();
    let position = VaultContract::get_position(&state, USER).unwrap();
    assert_eq!(position.collateral.len(), 1);
    assert_eq!(position.collateral[0].asset, TOKEN);
    assert_eq!(position.collateral[0].amount, 350);
    assert!(state.get_position_index().contains(&USER));
}

#[test]
fn test_invariants_after_full_seize() {
    let mut state = setup_with_deposit();
    seize(&mut state, ENGINE, 500).unwrap();
    assert!(VaultContract::get_position(&state, USER).is_err());
    assert!(!state.get_position_index().contains(&USER));
}

#[test]
fn test_seize_sequential_partial() {
    let mut state = setup_with_deposit();
    seize(&mut state, ENGINE, 100).unwrap();
    assert_eq!(state.get_position_balance(USER, TOKEN), 400);
    seize(&mut state, ENGINE, 200).unwrap();
    assert_eq!(state.get_position_balance(USER, TOKEN), 200);
    seize(&mut state, ENGINE, 200).unwrap();
    assert_eq!(state.get_position_balance(USER, TOKEN), 0);
    assert!(!state.get_position_index().contains(&USER));
}

#[test]
fn test_authorize_liquidation_unauthorized_engine() {
    let state = setup();
    assert_eq!(VaultContract::authorize_liquidation(&state, MALICIOUS_ENGINE, USER), Err(VaultError::Unauthorized));
}

#[test]
fn test_authorize_liquidation_liquidatable_position() {
    let state = setup_with_deposit();
    assert_eq!(VaultContract::authorize_liquidation(&state, ENGINE, USER), Ok(POOL));
}

#[test]
fn test_authorize_liquidation_non_liquidatable_position() {
    let state = setup_with_deposit();
    assert_eq!(VaultContract::authorize_liquidation(&state, ENGINE, USER), Ok(POOL));
    assert_eq!(VaultContract::authorize_liquidation(&state, ENGINE, 99), Err(VaultError::NoPosition));
}

#[test]
fn test_authorize_liquidation_no_liquidation_engine_set() {
    let mut state = VaultState::new();
    assert_eq!(VaultContract::authorize_liquidation(&state, ENGINE, USER), Err(VaultError::Unauthorized));
    VaultContract::initialize(&mut state, ADMIN, POOL, ORACLE, FIRST_ENGINE).unwrap();
    assert_eq!(VaultContract::authorize_liquidation(&state, ENGINE, USER), Err(VaultError::Unauthorized));
}
