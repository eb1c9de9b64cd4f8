use lending_protocol::common::{ceil_div, health_factor_bps};
use lending_protocol::engine::admin;
use lending_protocol::engine::errors::EngineError;
use lending_protocol::engine::liquidate::{
    calculate_bonus, calculate_partial_repayment, is_liquidatable, liquidate, plan_seizure, token_amount_to_value,
    value_to_token_amount,
};
use lending_protocol::engine::storage::EngineState;
use lending_protocol::engine::types::{CollateralQuote, CollateralThreshold, LiquidationPlan, Seizure};

const ENGINE: u64 = 1;
const VAULT: u64 = 2;
const POOL: u64 = 3;
const ORACLE: u64 = 4;
const ADMIN: u64 = 5;
const LIQUIDATOR: u64 = 6;
const USER: u64 = 7;
const BORROW_ASSET: u64 = 8;
const COLLATERAL_ASSET: u64 = 9;

const COLLATERAL_VALUE: i128 = 10_000_000_000;
const DEBT: i128 = 8_100_000_000;
const LT_BPS: u32 = 8_000;
const HEALTH_FACTOR_UNHEALTHY: i128 = 9_876;
const HEALTH_FACTOR_HEALTHY: i128 = 10_500;
const EXPECTED_PARTIAL_REPAY: i128 = 3_855_932_204;
const COLLATERAL_BALANCE: i128 = 6_000_000_000;

fn expected_bonus(repay: i128) -> i128 {
    ceil_div(repay * 800, 10_000).unwrap()
}

fn engine() -> EngineState {
    let mut state = EngineState::new();
    admin::initialize(&mut state, ADMIN, VAULT, POOL, ORACLE).unwrap();
    state
}

fn thresholds() -> Vec<CollateralThreshold> {
    vec![CollateralThreshold { amount: COLLATERAL_BALANCE, liquidation_threshold_bps: LT_BPS }]
}

fn quotes() -> Vec<CollateralQuote> {
    vec![CollateralQuote {
        asset: COLLATERAL_ASSET,
        amount: COLLATERAL_BALANCE,
        price: 10_000_000,
        token_decimals: 7,
        oracle_price_decimals: 7,
    }]
}

fn run(state: &EngineState, liquidator: u64, max_repay: i128, registered: Option<u64>, hf: i128) -> Result<LiquidationPlan, EngineError> {
    liquidate(
        state,
        ENGINE,
        liquidator,
        USER,
        max_repay,
        registered,
        DEBT,
        COLLATERAL_VALUE,
        hf,
        &thresholds(),
        Some(BORROW_ASSET),
        &quotes(),
    )
}

#[test]
fn test_calculate_bonus_eight_percent() {
    assert_eq!(calculate_bonus(1_000_000_000), Ok(80_000_000));
}

#[test]
fn test_calculate_bonus_rejects_non_positive() {
    assert_eq!(calculate_bonus(0), Err(EngineError::InvalidAmount));
    assert_eq!(calculate_bonus(-100), Err(EngineError::InvalidAmount));
}

#[test]
fn test_calculate_bonus_small_amount() {
    assert_eq!(calculate_bonus(1), Ok(1));
}

#[test]
fn test_calculate_bonus_large_amount() {
    assert_eq!(calculate_bonus(10_000_000_000), Ok(800_000_000));
}

#[test]
fn test_calculate_bonus_overflow_protection() {
    assert_eq!(calculate_bonus(i128::MAX), Err(EngineError::Overflow));
}

#[test]
fn test_calculate_bonus_rounding() {
    assert_eq!(calculate_bonus(100), Ok(8));
    assert_eq!(calculate_bonus(101), Ok(9));
}

#[test]
fn test_calculate_bonus_various_amounts() {
    let test_cases: [(i128, i128); 4] = [(10, 1), (125, 10), (1250, 100), (12500, 1000)];
    for (repaid, expected_bonus) in &test_cases {
        assert_eq!(calculate_bonus(*repaid), Ok(*expected_bonus), "repaid={}", repaid);
    }
}

#[test]
fn test_partial_repay_math_architecture_fixture() {
    let collateral_value = 10_000i128;
    let debt = 8_100i128;
    let lt_bps = 8_000i128;
    let target_hf_bps = 11_000i128;
    let bonus_bps = 800i128;

    let numerator = target_hf_bps * debt - collateral_value * lt_bps;
    assert_eq!(numerator, 9_100_000);

    let denominator_sub = (10_000 + bonus_bps) * lt_bps / 10_000;
    let denominator = target_hf_bps - denominator_sub;
    assert_eq!(denominator, 2_360);

    let uncapped_r = (numerator + denominator - 1) / denominator;
    assert_eq!(uncapped_r, 3856, "Uncapped R should be 3856");
    assert_eq!(ceil_div(numerator, denominator), Ok(3856));

    let close_factor = debt * 5_000 / 10_000;
    assert_eq!(close_factor, 4_050, "Close factor should be 4_050");

    let repay = uncapped_r.min(close_factor).min(debt);
    assert_eq!(repay, 3_856, "Final repay should be 3_856");
}

#[test]
fn test_partial_repay_bonus_calculation_in_fixture() {
    let repay = 3_856i128;
    let bonus_bps = 800i128;

    let seized_value = repay * (10_000 + bonus_bps) / 10_000;
    assert_eq!(seized_value, 4_164, "Seized value should be 4_164");

    let bonus_numerator = repay * bonus_bps;
    let bonus = (bonus_numerator + 10_000 - 1) / 10_000;
    assert_eq!(bonus, 309, "Bonus should be ceil(308.48) = 309");
    assert_eq!(calculate_bonus(repay), Ok(309));
}

#[test]
fn test_health_factor_calculation_fixture() {
    let collateral_value = 10_000i128;
    let debt = 8_100i128;
    let lt_bps = 8_000i128;

    let current_hf = (collateral_value * lt_bps) / debt;
    assert_eq!(current_hf, 9876, "Current HF should be 9876 (floor)");
    assert_eq!(health_factor_bps(collateral_value, debt, 8_000), Ok(9876));

    let remaining_collateral = collateral_value - 4_164;
    let remaining_debt = debt - 3_856;
    assert_eq!(remaining_collateral, 5_836);
    assert_eq!(remaining_debt, 4_244);

    let post_hf = (remaining_collateral * lt_bps) / remaining_debt;
    assert_eq!(post_hf, 11000, "Post-HF should be >= TARGET_HF_BPS (11_000)");
    assert_eq!(health_factor_bps(remaining_collateral, remaining_debt, 8_000), Ok(11000));
}

#[test]
fn test_is_liquidatable_false_when_healthy_or_no_debt() {
    let state = engine();
    assert_eq!(is_liquidatable(&state, DEBT, HEALTH_FACTOR_UNHEALTHY), Ok(true));
    assert_eq!(is_liquidatable(&state, 0, HEALTH_FACTOR_UNHEALTHY), Ok(false));
    assert_eq!(is_liquidatable(&state, DEBT, HEALTH_FACTOR_HEALTHY), Ok(false));
}

#[test]
fn test_liquidate_success_repays_seizes_and_pays_bonus() {
    let state = engine();
    let plan = run(&state, LIQUIDATOR, DEBT, Some(ENGINE), HEALTH_FACTOR_UNHEALTHY).unwrap();

    assert_eq!(plan.result.user, USER);
    assert_eq!(plan.result.repaid, EXPECTED_PARTIAL_REPAY);
    let bonus = expected_bonus(EXPECTED_PARTIAL_REPAY);
    assert_eq!(plan.result.bonus, bonus);
    assert_eq!(plan.result.seized, EXPECTED_PARTIAL_REPAY + bonus);
    assert_eq!(plan.borrow_asset, BORROW_ASSET);
    assert_eq!(plan.seizures, vec![Seizure { asset: COLLATERAL_ASSET, amount: EXPECTED_PARTIAL_REPAY + bonus }]);
    assert!(COLLATERAL_BALANCE - (EXPECTED_PARTIAL_REPAY + bonus) > 0);
}

#[test]
fn test_liquidate_respects_max_repay_amount() {
    let state = engine();
    let max_repay = 1_000_000_000i128;
    assert!(max_repay < EXPECTED_PARTIAL_REPAY);

    let plan = run(&state, LIQUIDATOR, max_repay, Some(ENGINE), HEALTH_FACTOR_UNHEALTHY).unwrap();
    assert_eq!(plan.result.repaid, max_repay);
    let bonus = expected_bonus(max_repay);
    assert_eq!(plan.result.bonus, bonus);
    assert_eq!(plan.result.seized, max_repay + bonus);
    assert_eq!(plan.seizures, vec![Seizure { asset: COLLATERAL_ASSET, amount: max_repay + bonus }]);
}

#[test]
fn test_liquidate_rejects_healthy_user() {
    let state = engine();
    let res = run(&state, LIQUIDATOR, DEBT, Some(ENGINE), HEALTH_FACTOR_HEALTHY);
    assert_eq!(res.unwrap_err(), EngineError::NotLiquidatable);
}

#[test]
fn test_liquidate_rejects_self_liquidation() {
    let state = engine();
    let res = run(&state, USER, DEBT, Some(ENGINE), HEALTH_FACTOR_UNHEALTHY);
    assert_eq!(res.unwrap_err(), EngineError::Unauthorized);
}

#[test]
fn test_liquidate_rejects_non_positive_max_repay() {
    let state = engine();
    assert_eq!(run(&state, LIQUIDATOR, 0, Some(ENGINE), HEALTH_FACTOR_UNHEALTHY).unwrap_err(), EngineError::InvalidAmount);
    assert_eq!(run(&state, LIQUIDATOR, -1, Some(ENGINE), HEALTH_FACTOR_UNHEALTHY).unwrap_err(), EngineError::InvalidAmount);
}

#[test]
fn test_liquidate_fails_if_vault_engine_mismatch() {
    let state = engine();
    let other_engine = 99;
    let res = run(&state, LIQUIDATOR, DEBT, Some(other_engine), HEALTH_FACTOR_UNHEALTHY);
    assert_eq!(res.unwrap_err(), EngineError::Unauthorized);
    let res = run(&state, LIQUIDATOR, DEBT, None, HEALTH_FACTOR_UNHEALTHY);
    assert_eq!(res.unwrap_err(), EngineError::Unauthorized);
}

#[test]
fn liquidate_uninitialised_engine_is_not_initialized() {
    let state = EngineState::new();
    let res = run(&state, LIQUIDATOR, DEBT, Some(ENGINE), HEALTH_FACTOR_UNHEALTHY);
    assert_eq!(res.unwrap_err(), EngineError::NotInitialized);
}

#[test]
fn partial_repayment_of_scaled_fixture() {
    let state = engine();
    assert_eq!(
        calculate_partial_repayment(&state, DEBT, COLLATERAL_VALUE, HEALTH_FACTOR_UNHEALTHY, &thresholds()),
        Ok(EXPECTED_PARTIAL_REPAY)
    );
}

#[test]
fn partial_repayment_of_small_debt_is_the_whole_debt() {
    let state = engine();
    let small = vec![CollateralThreshold { amount: 10_000, liquidation_threshold_bps: 8_000 }];
    assert_eq!(calculate_partial_repayment(&state, 8_100, 10_000, 9_876, &small), Ok(8_100));
}

#[test]
fn partial_repayment_errors() {
    let state = engine();
    assert_eq!(
        calculate_partial_repayment(&state, 0, COLLATERAL_VALUE, HEALTH_FACTOR_UNHEALTHY, &thresholds()),
        Err(EngineError::NoPosition)
    );
    assert_eq!(
        calculate_partial_repayment(&state, DEBT, COLLATERAL_VALUE, HEALTH_FACTOR_HEALTHY, &thresholds()),
        Err(EngineError::NotLiquidatable)
    );
    let empty = vec![CollateralThreshold { amount: 0, liquidation_threshold_bps: 8_000 }];
    assert_eq!(
        calculate_partial_repayment(&state, DEBT, COLLATERAL_VALUE, HEALTH_FACTOR_UNHEALTHY, &empty),
        Err(EngineError::NoPosition)
    );
    assert_eq!(
        calculate_partial_repayment(&EngineState::new(), DEBT, COLLATERAL_VALUE, HEALTH_FACTOR_UNHEALTHY, &thresholds()),
        Err(EngineError::NotInitialized)
    );
}

#[test]
fn partial_repayment_uses_the_lowest_threshold_held() {
    let state = engine();
    let mixed = vec![
        CollateralThreshold { amount: COLLATERAL_BALANCE, liquidation_threshold_bps: 8_000 },
        CollateralThreshold { amount: 0, liquidation_threshold_bps: 1_000 },
        CollateralThreshold { amount: 5, liquidation_threshold_bps: 9_000 },
    ];
    assert_eq!(
        calculate_partial_repayment(&state, DEBT, COLLATERAL_VALUE, HEALTH_FACTOR_UNHEALTHY, &mixed),
        Ok(EXPECTED_PARTIAL_REPAY)
    );
}

#[test]
fn deeply_underwater_position_repays_whole_debt() {
    let state = engine();
    let t = vec![CollateralThreshold { amount: 1, liquidation_threshold_bps: 8_000 }];
    assert_eq!(calculate_partial_repayment(&state, DEBT, 1_000_000_000, 987, &t), Ok(DEBT));
}

#[test]
fn value_and_token_conversions_round_in_the_protocols_favour() {
    assert_eq!(value_to_token_amount(15, 20_000_000, 7, 7), Ok(8));
    assert_eq!(token_amount_to_value(7, 20_000_000, 7, 7), Ok(14));
    assert_eq!(value_to_token_amount(100, 10_000_000, 6, 7), Ok(10));
    assert_eq!(value_to_token_amount(1, 0, 7, 7), Err(EngineError::Overflow));
    assert_eq!(value_to_token_amount(1, 1, 40, 0), Err(EngineError::Overflow));
    assert_eq!(token_amount_to_value(i128::MAX, 1, 7, 7), Err(EngineError::Overflow));
}

#[test]
fn seizure_takes_largest_balance_first_and_moves_on() {
    let collateral = vec![
        CollateralQuote { asset: 20, amount: 300, price: 10_000_000, token_decimals: 7, oracle_price_decimals: 7 },
        CollateralQuote { asset: 21, amount: 500, price: 10_000_000, token_decimals: 7, oracle_price_decimals: 7 },
        CollateralQuote { asset: 22, amount: 500, price: 10_000_000, token_decimals: 7, oracle_price_decimals: 7 },
    ];
    assert_eq!(
        plan_seizure(&collateral, 700),
        Ok(vec![Seizure { asset: 21, amount: 500 }, Seizure { asset: 22, amount: 200 }])
    );
    assert_eq!(plan_seizure(&collateral, 1_301), Err(EngineError::InvalidAmount));
    assert_eq!(plan_seizure(&collateral, 0), Ok(vec![]));
}
