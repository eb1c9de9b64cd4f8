use lending_protocol::vault::assets::add_supported_asset;
use lending_protocol::vault::contract::VaultContract;
use lending_protocol::vault::errors::VaultError;
use lending_protocol::vault::storage::VaultState;

const ADMIN: u64 = 1;
const USER: u64 = 2;
const ORACLE: u64 = 3;
const POOL: u64 = 4;
const ENGINE: u64 = 5;
const TOKEN: u64 = 6;

fn setup() -> VaultState {
    let mut state = VaultState::new();
    VaultContract::initialize(&mut state, ADMIN, POOL, ORACLE, ENGINE).unwrap();
    add_supported_asset(&mut state, TOKEN).unwrap();
    state
}

fn prices(state: &VaultState, price: i128) -> Vec<i128> {
    match state.get_position(USER) {
        Some(p) => p.collateral.iter().map(|_| price).collect(),
        None => vec![],
    }
}

fn value(state: &VaultState, price: i128) -> Result<i128, VaultError> {
    VaultContract::get_collateral_value(state, USER, &prices(state, price))
}

fn withdraw(state: &mut VaultState, amount: i128) -> Result<(), VaultError> {
    let p = prices(state, 10_000_000);
    VaultContract::withdraw(state, USER, TOKEN, amount, 0, &p, Some(10_000_000))
}

#[test]
fn test_get_position_returns_correct_data() {
    let mut state = setup();
    VaultContract::deposit(&mut state, USER, TOKEN, 500).unwrap();
    let position = VaultContract::get_position(&state, USER).unwrap();
    assert_eq!(position.user, USER);
    assert_eq!(position.collateral.len(), 1);
    assert_eq!(position.collateral[0].asset, TOKEN);
    assert_eq!(position.collateral[0].amount, 500);
}

#[test]
fn test_get_position_no_position_fails_with_no_position() {
    let state = setup();
    assert_eq!(VaultContract::get_position(&state, USER).unwrap_err(), VaultError::NoPosition);
}

#[test]
fn test_get_position_after_partial_withdraw() {
    let mut state = setup();
    VaultContract::deposit(&mut state, USER, TOKEN, 500).unwrap();
    withdraw(&mut state, 200).unwrap();
    assert_eq!(VaultContract::get_position(&state, USER).unwrap().collateral[0].amount, 300);
}

#[test]
fn test_get_position_after_full_withdraw_fails_with_no_position() {
    let mut state = setup();
    VaultContract::deposit(&mut state, USER, TOKEN, 500).unwrap();
    withdraw(&mut state, 500).unwrap();
    assert_eq!(VaultContract::get_position(&state, USER).unwrap_err(), VaultError::NoPosition);
}

#[test]
fn test_get_collateral_value_correct_calculation() {
    let mut state = setup();
    VaultContract::deposit(&mut state, USER, TOKEN, 500).unwrap();
    assert_eq!(value(&state, 10_000_000), Ok(500));
}

#[test]
fn test_get_collateral_value_no_position_fails_with_no_position() {
    let state = setup();
    assert_eq!(value(&state, 10_000_000), Err(VaultError::NoPosition));
}

#[test]
fn test_get_collateral_value_precision() {
    let mut state = setup();
    let large_amount = 1_000_000_000_000_i128;
    VaultContract::deposit(&mut state, USER, TOKEN, large_amount).unwrap();
    assert_eq!(value(&state, 1_000_000_000), Ok(100_000_000_000_000));
}

#[test]
fn test_get_collateral_value_uses_latest_price() {
    let mut state = setup();
    VaultContract::deposit(&mut state, USER, TOKEN, 500).unwrap();
    assert_eq!(value(&state, 10_000_000), Ok(500));
    assert_eq!(value(&state, 12_000_000), Ok(600));
}

#[test]
fn test_get_collateral_value_price_precision_applied() {
    let mut state = setup();
    VaultContract::deposit(&mut state, USER, TOKEN, 1).unwrap();
    assert_eq!(value(&state, 10_000_000), Ok(1));
    assert_eq!(value(&state, 5_000_000), Ok(0));
    assert_eq!(value(&state, 20_000_000), Ok(2));
}

#[test]
fn collateral_value_needs_an_oracle() {
    let mut state = VaultState::new();
    assert_eq!(VaultContract::get_collateral_value(&state, USER, &vec![]), Err(VaultError::NoPosition));
    VaultContract::initialize(&mut state, ADMIN, POOL, ORACLE, ENGINE).unwrap();
    state.oracle = None;
    add_supported_asset(&mut state, TOKEN).unwrap();
    VaultContract::deposit(&mut state, USER, TOKEN, 5).unwrap();
    assert_eq!(value(&state, 10_000_000), Err(VaultError::OracleNotConfigured));
}
