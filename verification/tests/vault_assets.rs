use lending_protocol::vault::assets::{add_supported_asset, is_supported_asset, remove_supported_asset};
use lending_protocol::vault::contract::VaultContract;
use lending_protocol::vault::errors::VaultError;
use lending_protocol::vault::storage::VaultState;

const ADMIN: u64 = 1;
const USER: u64 = 2;
const ORACLE: u64 = 3;
const POOL: u64 = 4;
const ENGINE: u64 = 5;
const TOKEN: u64 = 6;
const OTHER_TOKEN: u64 = 7;
const USER2: u64 = 8;

fn setup() -> VaultState {
    let mut state = VaultState::new();
    VaultContract::initialize(&mut state, ADMIN, POOL, ORACLE, ENGINE).unwrap();
    add_supported_asset(&mut state, TOKEN).unwrap();
    state
}

fn withdraw_all(state: &mut VaultState, user: u64, amount: i128) -> Result<(), VaultError> {
    let prices: Vec<i128> = match state.get_position(user) {
        Some(p) => p.collateral.iter().map(|_| 10_000_000).collect(),
        None => vec![],
    };
    VaultContract::withdraw(state, user, TOKEN, amount, 0, &prices, Some(10_000_000))
}

#[test]
fn test_add_asset_success() {
    let mut state = setup();
    add_supported_asset(&mut state, OTHER_TOKEN).unwrap();
    assert!(is_supported_asset(&state, OTHER_TOKEN));
}

#[test]
fn test_add_asset_duplicate_fails() {
    let mut state = setup();
    assert_eq!(add_supported_asset(&mut state, TOKEN), Err(VaultError::AlreadySupported));
}

#[test]
fn test_remove_asset_with_no_balance_succeeds() {
    let mut state = setup();
    assert!(is_supported_asset(&state, TOKEN));
    remove_supported_asset(&mut state, TOKEN).unwrap();
    assert!(!is_supported_asset(&state, TOKEN));
}

#[test]
fn test_remove_asset_not_found_fails() {
    let mut state = setup();
    assert!(remove_supported_asset(&mut state, OTHER_TOKEN).is_err());
}

#[test]
fn test_remove_asset_with_open_position_fails() {
    let mut state = setup();
    VaultContract::deposit(&mut state, USER, TOKEN, 500).unwrap();
    assert!(remove_supported_asset(&mut state, TOKEN).is_err(), "should reject removal when user balance is non-zero");
    assert_eq!(state.get_position_balance(USER, TOKEN), 500);
}

#[test]
fn test_remove_asset_does_not_clear_existing_positions() {
    let mut state = setup();
    VaultContract::deposit(&mut state, USER, TOKEN, 500).unwrap();
    let _ = remove_supported_asset(&mut state, TOKEN);
    assert_eq!(state.get_position_balance(USER, TOKEN), 500);
}

#[test]
fn test_is_supported_asset_true() {
    let state = setup();
    assert!(is_supported_asset(&state, TOKEN));
}

#[test]
fn test_is_supported_asset_false() {
    let state = setup();
    assert!(!is_supported_asset(&state, OTHER_TOKEN));
}

#[test]
fn test_get_all_positions_empty() {
    let state = setup();
    assert!(state.get_all_positions().is_empty());
}

#[test]
fn test_get_all_positions_multiple_users() {
    let mut state = setup();
    VaultContract::deposit(&mut state, USER, TOKEN, 500).unwrap();
    VaultContract::deposit(&mut state, USER2, TOKEN, 300).unwrap();
    let positions = state.get_all_positions();
    assert_eq!(positions.len(), 2);
    assert!(positions.iter().any(|p| p.user == USER));
    assert!(positions.iter().any(|p| p.user == USER2));
}

#[test]
fn test_get_all_positions_excludes_withdrawn() {
    let mut state = setup();
    VaultContract::deposit(&mut state, USER, TOKEN, 500).unwrap();
    assert_eq!(state.get_all_positions().len(), 1);
    withdraw_all(&mut state, USER, 500).unwrap();
    assert_eq!(state.get_all_positions().len(), 0);
}

#[test]
fn remove_asset_moves_last_asset_into_the_freed_slot() {
    let mut state = setup();
    add_supported_asset(&mut state, OTHER_TOKEN).unwrap();
    add_supported_asset(&mut state, 9).unwrap();
    remove_supported_asset(&mut state, TOKEN).unwrap();
    assert_eq!(state.get_supported_assets(), vec![9, OTHER_TOKEN]);
}
