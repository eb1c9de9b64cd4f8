use lending_protocol::common::SECONDS_PER_YEAR;
use lending_protocol::pool::admin as pool_admin;
use lending_protocol::pool::borrow::{borrow, calculate_limit};
use lending_protocol::pool::debt::get_user_debt;
use lending_protocol::pool::errors::PoolError;
use lending_protocol::pool::liquidity::{get_available_liquidity, get_total_supply, supply, withdraw_liquidity};
use lending_protocol::pool::repay::repay;
use lending_protocol::pool::storage::PoolState;
use lending_protocol::vault::assets::{add_supported_asset, get_asset_config};
use lending_protocol::vault::contract::VaultContract;
use lending_protocol::vault::storage::VaultState;

const ADMIN: u64 = 1;
const USER: u64 = 2;
const LP: u64 = 3;
const ORACLE: u64 = 4;
const POOL: u64 = 5;
const VAULT: u64 = 6;
const ENGINE: u64 = 7;
const COLLATERAL_TOKEN: u64 = 8;
const BORROW_TOKEN: u64 = 9;

const INTEREST_RATE_BPS: u32 = 800;
const COLLATERAL_PRICE: i128 = 10_000_000;
const COLLATERAL_DEPOSIT: i128 = 1_000_000_000;
const LIQUIDITY_SUPPLY: i128 = 2_000_000_000;
const BORROW_AMOUNT: i128 = 500_000_000;
const HALF_YEAR_SECONDS: u64 = SECONDS_PER_YEAR / 2;
const START: u64 = 1_000;

struct Protocol {
    vault: VaultState,
    pool: PoolState,
}

fn setup() -> Protocol {
    let mut vault = VaultState::new();
    VaultContract::initialize(&mut vault, ADMIN, POOL, ORACLE, ENGINE).unwrap();
    add_supported_asset(&mut vault, COLLATERAL_TOKEN).unwrap();
    let mut pool = PoolState::new();
    pool_admin::initialize(&mut pool, ADMIN, VAULT, ORACLE, BORROW_TOKEN, INTEREST_RATE_BPS).unwrap();
    Protocol { vault, pool }
}

fn prices(p: &Protocol, user: u64) -> Vec<i128> {
    match p.vault.get_position(user) {
        Some(pos) => pos.collateral.iter().map(|_| COLLATERAL_PRICE).collect(),
        None => vec![],
    }
}

/// What the pool reads from the vault to size a borrow limit.
fn limit_inputs(p: &Protocol, user: u64) -> (Option<Vec<u32>>, i128) {
    match VaultContract::get_position(&p.vault, user) {
        Ok(pos) => {
            let ltvs = pos.collateral.iter().map(|c| get_asset_config(&p.vault, c.asset).unwrap().max_ltv_bps).collect();
            let value = VaultContract::get_collateral_value(&p.vault, user, &prices(p, user)).unwrap();
            (Some(ltvs), value)
        },
        Err(_) => (None, 0),
    }
}

fn pool_borrow(p: &mut Protocol, amount: i128, now: u64) -> Result<(), PoolError> {
    let (ltvs, value) = limit_inputs(p, USER);
    borrow(&mut p.pool, USER, BORROW_TOKEN, amount, now, ltvs, value)
}

#[test]
fn test_deposit_supply_borrow_repay_lifecycle() {
    let mut p = setup();
    VaultContract::deposit(&mut p.vault, USER, COLLATERAL_TOKEN, COLLATERAL_DEPOSIT).unwrap();
    assert_eq!(p.vault.get_position_balance(USER, COLLATERAL_TOKEN), COLLATERAL_DEPOSIT);
    assert_eq!(VaultContract::get_collateral_value(&p.vault, USER, &prices(&p, USER)), Ok(COLLATERAL_DEPOSIT));

    supply(&mut p.pool, LP, LIQUIDITY_SUPPLY).unwrap();
    assert_eq!(get_available_liquidity(&p.pool), LIQUIDITY_SUPPLY);

    pool_borrow(&mut p, BORROW_AMOUNT, START).unwrap();
    assert_eq!(get_user_debt(&mut p.pool, USER, START), Ok(BORROW_AMOUNT));
    assert_eq!(get_available_liquidity(&p.pool), LIQUIDITY_SUPPLY - BORROW_AMOUNT);

    let later = START + HALF_YEAR_SECONDS;
    let expected_interest: i128 = 20_000_000;
    assert_eq!(get_user_debt(&mut p.pool, USER, later), Ok(BORROW_AMOUNT + expected_interest));

    let split = repay(&mut p.pool, USER, BORROW_TOKEN, expected_interest, later).unwrap();
    assert_eq!(split.interest_paid, expected_interest);
    assert_eq!(get_user_debt(&mut p.pool, USER, later), Ok(BORROW_AMOUNT));
    assert_eq!(get_available_liquidity(&p.pool), LIQUIDITY_SUPPLY - BORROW_AMOUNT);

    repay(&mut p.pool, USER, BORROW_TOKEN, BORROW_AMOUNT, later).unwrap();
    assert_eq!(get_user_debt(&mut p.pool, USER, later), Ok(0));
    assert_eq!(get_available_liquidity(&p.pool), LIQUIDITY_SUPPLY);

    let debt = get_user_debt(&mut p.pool, USER, later).unwrap();
    let pr = prices(&p, USER);
    VaultContract::withdraw(&mut p.vault, USER, COLLATERAL_TOKEN, COLLATERAL_DEPOSIT, debt, &pr, Some(COLLATERAL_PRICE))
        .unwrap();
    assert_eq!(p.vault.get_position_balance(USER, COLLATERAL_TOKEN), 0);
    assert!(!p.vault.get_position_index().contains(&USER));

    withdraw_liquidity(&mut p.pool, LP, LIQUIDITY_SUPPLY).unwrap();
    assert_eq!(get_total_supply(&p.pool), 0);
}

#[test]
fn test_borrow_under_ltv_limit_succeeds() {
    let mut p = setup();
    VaultContract::deposit(&mut p.vault, USER, COLLATERAL_TOKEN, COLLATERAL_DEPOSIT).unwrap();
    supply(&mut p.pool, LP, LIQUIDITY_SUPPLY).unwrap();
    let (ltvs, value) = limit_inputs(&p, USER);
    let limit = calculate_limit(&p.pool, ltvs, value).unwrap();
    assert_eq!(limit, 700_000_000);
    pool_borrow(&mut p, limit, START).unwrap();
    assert_eq!(get_user_debt(&mut p.pool, USER, START), Ok(limit));
    assert_eq!(pool_borrow(&mut p, 1, START), Err(PoolError::ExceedsBorrowLimit));
}
