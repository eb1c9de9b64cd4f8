use lending_protocol::common::{Debt, MIN_REMAINING_DEBT};
use lending_protocol::pool::admin::{initialize, pause_operation, set_admin, set_oracle, set_vault, unpause_operation};
use lending_protocol::pool::borrow::{borrow, calculate_limit};
use lending_protocol::pool::debt::{accrue_interest, get_debt, get_user_debt};
use lending_protocol::pool::errors::PoolError;
use lending_protocol::pool::liquidity::{
    get_available_liquidity, get_total_supply, get_user_supply, get_utilization_bps, supply, withdraw_liquidity,
};
use lending_protocol::pool::repay::{is_liquidatable, repay, repay_for};
use lending_protocol::pool::storage::PoolState;
use lending_protocol::pool::types::{PauseFlag, Repayment};

const ADMIN: u64 = 1;
const USER: u64 = 2;
const VAULT: u64 = 3;
const ORACLE: u64 = 4;
const TOKEN: u64 = 5;
const NEW_ADMIN: u64 = 6;
const WRONG_TOKEN: u64 = 7;
const NOW: u64 = 1_000;

fn pool_with_rate(rate: u32) -> PoolState {
    let mut state = PoolState::new();
    initialize(&mut state, ADMIN, VAULT, ORACLE, TOKEN, rate).unwrap();
    state
}

fn set_user_debt(state: &mut PoolState, user: u64, principal: i128, accrued_interest: i128, interest_rate_bps: u32, last_accrual_at: u64) {
    state.debts.insert(user, Debt { principal, accrued_interest, interest_rate_bps, last_accrual_at });
    state.total_borrowed += principal;
}

#[test]
fn pool_test_initialize_success() {
    let state = pool_with_rate(500);
    assert_eq!(state.get_admin(), Some(ADMIN));
    assert_eq!(state.get_vault(), Some(VAULT));
    assert_eq!(state.get_oracle(), Some(ORACLE));
    assert_eq!(state.get_borrow_asset(), Some(TOKEN));
    assert_eq!(state.get_interest_rate_bps(), 500);
}

#[test]
fn pool_test_initialize_duplicate_fails() {
    let mut state = pool_with_rate(500);
    assert_eq!(initialize(&mut state, ADMIN, VAULT, ORACLE, TOKEN, 500), Err(PoolError::AlreadyInitialized));
}

#[test]
fn test_initialize_vault_equals_oracle_fails() {
    let mut state = PoolState::new();
    assert_eq!(initialize(&mut state, ADMIN, VAULT, VAULT, TOKEN, 500), Err(PoolError::InvalidAddress));
    assert_eq!(state.get_admin(), None);
}

#[test]
fn pool_initialize_zero_rate_fails() {
    let mut state = PoolState::new();
    assert_eq!(initialize(&mut state, ADMIN, VAULT, ORACLE, TOKEN, 0), Err(PoolError::InvalidRate));
}

#[test]
fn pool_test_set_admin_success() {
    let mut state = pool_with_rate(500);
    set_admin(&mut state, NEW_ADMIN).unwrap();
    assert_eq!(state.get_admin(), Some(NEW_ADMIN));
}

#[test]
fn pool_test_set_admin_same_address_fails() {
    let mut state = pool_with_rate(500);
    assert_eq!(set_admin(&mut state, ADMIN), Err(PoolError::AlreadyAdmin));
}

#[test]
fn pool_test_getters_match_initialize_args() {
    let interest_rate_bps = 500;
    let state = pool_with_rate(interest_rate_bps);
    assert_eq!(state.get_admin(), Some(ADMIN));
    assert_eq!(state.get_vault(), Some(VAULT));
    assert_eq!(state.get_oracle(), Some(ORACLE));
    assert_eq!(state.get_borrow_asset(), Some(TOKEN));
    assert_eq!(state.get_interest_rate_bps(), interest_rate_bps);
}

#[test]
fn pool_set_vault_and_oracle_must_differ() {
    let mut state = pool_with_rate(500);
    assert_eq!(set_vault(&mut state, ORACLE), Err(PoolError::InvalidAddress));
    assert_eq!(set_oracle(&mut state, VAULT), Err(PoolError::InvalidAddress));
    set_vault(&mut state, 40).unwrap();
    set_oracle(&mut state, 41).unwrap();
    assert_eq!(state.get_vault(), Some(40));
    assert_eq!(state.get_oracle(), Some(41));
    assert_eq!(set_vault(&mut PoolState::new(), 40), Err(PoolError::NotInitialized));
}

#[test]
fn test_pause_and_unpause_borrow() {
    let mut state = pool_with_rate(500);
    pause_operation(&mut state, PauseFlag::Borrow).unwrap();
    assert!(unpause_operation(&mut state, PauseFlag::Borrow).is_ok());
}

#[test]
fn pool_test_double_pause_fails() {
    let mut state = pool_with_rate(500);
    pause_operation(&mut state, PauseFlag::Borrow).unwrap();
    assert_eq!(pause_operation(&mut state, PauseFlag::Borrow), Err(PoolError::AlreadyPaused));
}

#[test]
fn pool_test_unpause_when_not_paused_fails() {
    let mut state = pool_with_rate(500);
    assert_eq!(unpause_operation(&mut state, PauseFlag::Borrow), Err(PoolError::NotPaused));
}

#[test]
fn test_pool_is_operation_paused_matches_mask() {
    let mut state = pool_with_rate(500);
    assert!(!state.is_operation_paused(&PauseFlag::Supply));
    assert!(!state.is_operation_paused(&PauseFlag::Borrow));
    assert!(!state.is_operation_paused(&PauseFlag::Repay));
    assert!(!state.is_operation_paused(&PauseFlag::WithdrawLiquidity));

    pause_operation(&mut state, PauseFlag::Supply).unwrap();
    assert!(state.is_operation_paused(&PauseFlag::Supply));
    assert!(!state.is_operation_paused(&PauseFlag::Borrow));

    pause_operation(&mut state, PauseFlag::Borrow).unwrap();
    assert!(state.is_operation_paused(&PauseFlag::Borrow));
    assert!(!state.is_operation_paused(&PauseFlag::Repay));
    assert!(!state.is_operation_paused(&PauseFlag::WithdrawLiquidity));

    pause_operation(&mut state, PauseFlag::Repay).unwrap();
    pause_operation(&mut state, PauseFlag::WithdrawLiquidity).unwrap();
    assert!(state.is_operation_paused(&PauseFlag::Repay));
    assert!(state.is_operation_paused(&PauseFlag::WithdrawLiquidity));

    unpause_operation(&mut state, PauseFlag::Borrow).unwrap();
    assert!(!state.is_operation_paused(&PauseFlag::Borrow));
    assert!(state.is_operation_paused(&PauseFlag::Supply));
    assert!(state.is_operation_paused(&PauseFlag::Repay));
    assert!(state.is_operation_paused(&PauseFlag::WithdrawLiquidity));
}

#[test]
fn pause_then_unpause_restores_the_mask() {
    let mut state = pool_with_rate(500);
    pause_operation(&mut state, PauseFlag::Repay).unwrap();
    let mask = state.get_pause_mask();
    pause_operation(&mut state, PauseFlag::Supply).unwrap();
    unpause_operation(&mut state, PauseFlag::Supply).unwrap();
    assert_eq!(state.get_pause_mask(), mask);
    assert_eq!(mask, 4);
}

#[test]
fn test_supply_success_pulls_tokens_and_records_balance() {
    let mut state = pool_with_rate(500);
    supply(&mut state, USER, 500).unwrap();
    assert_eq!(get_user_supply(&state, USER), 500);
    assert_eq!(get_total_supply(&state), 500);
}

#[test]
fn test_supply_zero_or_negative_fails() {
    let mut state = pool_with_rate(500);
    assert_eq!(supply(&mut state, USER, 0), Err(PoolError::InvalidAmount));
    assert_eq!(supply(&mut state, USER, -100), Err(PoolError::InvalidAmount));
}

#[test]
fn test_supply_when_paused_fails() {
    let mut state = pool_with_rate(500);
    pause_operation(&mut state, PauseFlag::Supply).unwrap();
    assert_eq!(supply(&mut state, USER, 500), Err(PoolError::PoolPaused));
    assert_eq!(get_user_supply(&state, USER), 0);
}

#[test]
fn test_withdraw_liquidity_partial() {
    let mut state = pool_with_rate(500);
    supply(&mut state, USER, 500).unwrap();
    assert_eq!(get_user_supply(&state, USER), 500);
    assert_eq!(get_available_liquidity(&state), 500);

    withdraw_liquidity(&mut state, USER, 200).unwrap();
    assert_eq!(get_user_supply(&state, USER), 300);
    assert_eq!(get_total_supply(&state), 300);
}

#[test]
fn test_withdraw_liquidity_exceeds_balance_fails() {
    let mut state = pool_with_rate(500);
    supply(&mut state, USER, 500).unwrap();
    assert_eq!(withdraw_liquidity(&mut state, USER, 600), Err(PoolError::InsufficientSupply));
}

#[test]
fn test_withdraw_liquidity_when_paused_fails() {
    let mut state = pool_with_rate(500);
    supply(&mut state, USER, 500).unwrap();
    pause_operation(&mut state, PauseFlag::WithdrawLiquidity).unwrap();
    assert_eq!(withdraw_liquidity(&mut state, USER, 200), Err(PoolError::PoolPaused));
}

#[test]
fn withdraw_of_lent_liquidity_fails() {
    let mut state = pool_with_rate(500);
    supply(&mut state, USER, 500).unwrap();
    set_user_debt(&mut state, 9, 400, 0, 500, NOW);
    assert_eq!(get_available_liquidity(&state), 100);
    assert_eq!(withdraw_liquidity(&mut state, USER, 200), Err(PoolError::InsufficientLiquidity));
}

#[test]
fn test_utilization_zero_when_nothing_borrowed() {
    let mut state = pool_with_rate(500);
    supply(&mut state, USER, 500).unwrap();
    assert_eq!(get_utilization_bps(&state), 0);
}

#[test]
fn utilization_is_borrowed_share_in_bps() {
    let mut state = pool_with_rate(500);
    assert_eq!(get_utilization_bps(&state), 0);
    supply(&mut state, USER, 1_000).unwrap();
    set_user_debt(&mut state, 9, 333, 0, 500, NOW);
    assert_eq!(get_utilization_bps(&state), 3_330);
}

#[test]
fn supply_then_withdraw_restores_supply() {
    let mut state = pool_with_rate(500);
    supply(&mut state, USER, 700).unwrap();
    supply(&mut state, 8, 50).unwrap();
    withdraw_liquidity(&mut state, 8, 50).unwrap();
    assert_eq!(get_user_supply(&state, 8), 0);
    assert_eq!(get_user_supply(&state, USER), 700);
    assert_eq!(get_total_supply(&state), 700);
}

#[test]
fn test_repay_interest_before_principal() {
    let mut state = pool_with_rate(1000);
    set_user_debt(&mut state, USER, 100_000_000, 10_000_000, 1000, NOW);
    let split = repay(&mut state, USER, TOKEN, 5_000_000, NOW).unwrap();
    assert_eq!(split, Repayment { payment: 5_000_000, interest_paid: 5_000_000, principal_paid: 0 });
    let updated = get_debt(&mut state, USER, NOW).unwrap();
    assert_eq!(updated.accrued_interest, 5_000_000);
    assert_eq!(updated.principal, 100_000_000);
    assert_eq!(state.get_total_borrowed(), 100_000_000);
}

#[test]
fn test_repay_covers_interest_then_principal() {
    let mut state = pool_with_rate(1000);
    set_user_debt(&mut state, USER, 100_000_000, 10_000_000, 1000, NOW);
    let split = repay(&mut state, USER, TOKEN, 30_000_000, NOW).unwrap();
    assert_eq!(split.payment, 30_000_000);
    let updated = get_debt(&mut state, USER, NOW).unwrap();
    assert_eq!(updated.accrued_interest, 0);
    assert_eq!(updated.principal, 80_000_000);
    assert_eq!(state.get_total_borrowed(), 80_000_000);
}

#[test]
fn test_repay_full_clears_debt_and_index() {
    let mut state = pool_with_rate(1000);
    set_user_debt(&mut state, USER, 100_000_000, 10_000_000, 1000, NOW);
    let split = repay(&mut state, USER, TOKEN, 150_000_000, NOW).unwrap();
    assert!(state.debts.get(&USER).is_none());
    assert_eq!(state.get_total_borrowed(), 0);
    assert_eq!(get_user_debt(&mut state, USER, NOW), Ok(0));
    assert_eq!(split.payment, 110_000_000);
    assert_eq!(150_000_000 - split.payment, 40_000_000);
}

#[test]
fn test_repay_zero_or_negative_fails() {
    let mut state = pool_with_rate(1000);
    assert_eq!(repay(&mut state, USER, TOKEN, 0, NOW), Err(PoolError::InvalidAmount));
    assert_eq!(repay(&mut state, USER, TOKEN, -100, NOW), Err(PoolError::InvalidAmount));
}

#[test]
fn test_repay_when_paused_fails() {
    let mut state = pool_with_rate(1000);
    set_user_debt(&mut state, USER, 100_000_000, 0, 1000, NOW);
    pause_operation(&mut state, PauseFlag::Repay).unwrap();
    assert_eq!(repay(&mut state, USER, TOKEN, 50_000_000, NOW), Err(PoolError::RepayPaused));
}

#[test]
fn test_repay_wrong_asset_fails() {
    let mut state = pool_with_rate(1000);
    assert_eq!(repay(&mut state, USER, WRONG_TOKEN, 1000, NOW), Err(PoolError::UnsupportedAsset));
}

#[test]
fn test_repay_dust_remaining_fails_unless_full_close() {
    let mut state = pool_with_rate(1000);
    let total_debt = MIN_REMAINING_DEBT + 50;
    set_user_debt(&mut state, USER, total_debt, 0, 1000, NOW);
    assert_eq!(repay(&mut state, USER, TOKEN, 100, NOW), Err(PoolError::BelowMinDebt));
    assert!(repay(&mut state, USER, TOKEN, total_debt, NOW).is_ok());
}

#[test]
fn repay_without_debt_fails() {
    let mut state = pool_with_rate(1000);
    assert_eq!(repay(&mut state, USER, TOKEN, 1000, NOW), Err(PoolError::NoDebt));
}

#[test]
fn repay_for_is_not_offered() {
    let state = pool_with_rate(1000);
    assert_eq!(repay_for(&state, 9, USER, TOKEN, 10), Err(PoolError::NotImplemented));
}

#[test]
fn test_is_liquidatable_false_when_no_debt() {
    let mut state = pool_with_rate(1000);
    assert_eq!(is_liquidatable(&mut state, USER, NOW, 5000), Ok(false));
}

#[test]
fn test_is_liquidatable_true_when_hf_below_one() {
    let mut state = pool_with_rate(1000);
    set_user_debt(&mut state, USER, 100_000_000, 0, 1000, NOW);
    assert_eq!(is_liquidatable(&mut state, USER, NOW, 10_500), Ok(false));
    assert_eq!(is_liquidatable(&mut state, USER, NOW, 9_500), Ok(true));
}

#[test]
fn interest_accrues_linearly_over_a_year() {
    let mut state = pool_with_rate(1000);
    set_user_debt(&mut state, USER, 100_000_000, 0, 1000, NOW);
    let debt = accrue_interest(&mut state, USER, NOW + 31_536_000).unwrap();
    assert_eq!(debt.accrued_interest, 10_000_000);
    assert_eq!(debt.principal, 100_000_000);
    assert_eq!(debt.last_accrual_at, NOW + 31_536_000);
    assert_eq!(get_user_debt(&mut state, USER, NOW + 31_536_000), Ok(110_000_000));
}

#[test]
fn accrual_of_no_debt_records_nothing() {
    let mut state = pool_with_rate(1000);
    let debt = accrue_interest(&mut state, USER, NOW).unwrap();
    assert_eq!(debt, Debt { principal: 0, accrued_interest: 0, interest_rate_bps: 0, last_accrual_at: 0 });
    assert!(state.debts.get(&USER).is_none());
}

#[test]
fn borrow_within_limit_records_debt() {
    let mut state = pool_with_rate(800);
    supply(&mut state, 9, 1_000_000_000).unwrap();
    borrow(&mut state, USER, TOKEN, 500_000_000, NOW, Some(vec![7_000, 6_000]), 1_000_000_000).unwrap();
    let debt = get_debt(&mut state, USER, NOW).unwrap();
    assert_eq!(debt, Debt { principal: 500_000_000, accrued_interest: 0, interest_rate_bps: 800, last_accrual_at: NOW });
    assert_eq!(state.get_total_borrowed(), 500_000_000);
    assert_eq!(get_available_liquidity(&state), 500_000_000);
}

#[test]
fn borrow_errors() {
    let mut state = pool_with_rate(800);
    supply(&mut state, 9, 1_000_000_000).unwrap();
    let ltvs = Some(vec![6_000]);
    assert_eq!(borrow(&mut state, USER, TOKEN, 0, NOW, ltvs.clone(), 1_000), Err(PoolError::InvalidAmount));
    assert_eq!(borrow(&mut state, USER, WRONG_TOKEN, 10, NOW, ltvs.clone(), 1_000), Err(PoolError::UnsupportedAsset));
    assert_eq!(
        borrow(&mut state, USER, TOKEN, 600_000_001, NOW, ltvs.clone(), 1_000_000_000),
        Err(PoolError::ExceedsBorrowLimit)
    );
    assert_eq!(
        borrow(&mut state, USER, TOKEN, 2_000_000_000, NOW, ltvs.clone(), 10_000_000_000),
        Err(PoolError::InsufficientLiquidity)
    );
    assert_eq!(borrow(&mut state, USER, TOKEN, 10, NOW, None, 1_000), Err(PoolError::NoCollateral));
    assert_eq!(borrow(&mut state, USER, TOKEN, 10, NOW, Some(vec![]), 1_000), Err(PoolError::NoCollateral));
    pause_operation(&mut state, PauseFlag::Borrow).unwrap();
    assert_eq!(borrow(&mut state, USER, TOKEN, 10, NOW, ltvs, 1_000), Err(PoolError::BorrowPaused));
    assert_eq!(state.get_total_borrowed(), 0);
}

#[test]
fn limit_uses_smallest_ltv() {
    let state = pool_with_rate(800);
    assert_eq!(calculate_limit(&state, Some(vec![7_000, 5_000, 6_000]), 1_000_000), Ok(500_000));
    assert_eq!(calculate_limit(&state, Some(vec![7_000]), -1), Err(PoolError::InvalidAmount));
    assert_eq!(calculate_limit(&state, Some(vec![12_000]), 1), Err(PoolError::InvalidRate));
    assert_eq!(calculate_limit(&PoolState::new(), Some(vec![7_000]), 1), Err(PoolError::NotInitialized));
}
