use lending_protocol::engine::admin::{initialize, set_admin, set_oracle, set_pool, set_vault};
use lending_protocol::engine::errors::EngineError;
use lending_protocol::engine::storage::EngineState;

const ADMIN: u64 = 1;
const VAULT: u64 = 2;
const POOL: u64 = 3;
const ORACLE: u64 = 4;
const NEW_ADMIN: u64 = 5;

#[test]
fn engine_test_initialize_success() {
    let mut state = EngineState::new();
    assert_eq!(initialize(&mut state, ADMIN, VAULT, POOL, ORACLE), Ok(()));
    assert_eq!(state.get_admin(), Some(ADMIN));
    assert_eq!(state.get_vault(), Some(VAULT));
    assert_eq!(state.get_pool(), Some(POOL));
    assert_eq!(state.get_oracle(), Some(ORACLE));
}

#[test]
fn engine_test_initialize_duplicate_fails() {
    let mut state = EngineState::new();
    assert_eq!(initialize(&mut state, ADMIN, VAULT, POOL, ORACLE), Ok(()));
    assert_eq!(initialize(&mut state, ADMIN, VAULT, POOL, ORACLE), Err(EngineError::AlreadyInitialized));
}

#[test]
fn test_initialize_duplicate_addresses_fail() {
    let cases = [
        (ADMIN, ADMIN, POOL, 9),
        (ADMIN, VAULT, ADMIN, 9),
        (ADMIN, VAULT, POOL, ADMIN),
        (ADMIN, VAULT, VAULT, 9),
        (ADMIN, VAULT, POOL, VAULT),
        (ADMIN, VAULT, POOL, POOL),
    ];
    for (a, v, p, o) in cases {
        let mut state = EngineState::new();
        assert_eq!(initialize(&mut state, a, v, p, o), Err(EngineError::InvalidAddress));
        assert_eq!(state, EngineState::new());
    }
}

#[test]
fn engine_test_set_admin_success() {
    let mut state = EngineState::new();
    assert_eq!(initialize(&mut state, ADMIN, VAULT, POOL, ORACLE), Ok(()));
    assert_eq!(set_admin(&mut state, NEW_ADMIN), Ok(()));
    assert_eq!(state.get_admin(), Some(NEW_ADMIN));
}

#[test]
fn engine_test_set_admin_same_address_fails() {
    let mut state = EngineState::new();
    assert_eq!(initialize(&mut state, ADMIN, VAULT, POOL, ORACLE), Ok(()));
    assert_eq!(set_admin(&mut state, ADMIN), Err(EngineError::AlreadyAdmin));
}

#[test]
fn engine_test_getters_match_initialize_args() {
    let mut state = EngineState::new();
    assert_eq!(initialize(&mut state, ADMIN, VAULT, POOL, ORACLE), Ok(()));
    assert_eq!(state.get_admin(), Some(ADMIN));
    assert_eq!(state.get_vault(), Some(VAULT));
    assert_eq!(state.get_pool(), Some(POOL));
    assert_eq!(state.get_oracle(), Some(ORACLE));
}

#[test]
fn engine_repointing_rejects_collisions_and_needs_initialisation() {
    let mut state = EngineState::new();
    assert_eq!(set_vault(&mut state, 10), Err(EngineError::NotInitialized));
    assert_eq!(initialize(&mut state, ADMIN, VAULT, POOL, ORACLE), Ok(()));
    assert_eq!(set_vault(&mut state, POOL), Err(EngineError::InvalidAddress));
    assert_eq!(set_pool(&mut state, ORACLE), Err(EngineError::InvalidAddress));
    assert_eq!(set_oracle(&mut state, ADMIN), Err(EngineError::InvalidAddress));
    assert_eq!(set_vault(&mut state, 10), Ok(()));
    assert_eq!(set_pool(&mut state, 11), Ok(()));
    assert_eq!(set_oracle(&mut state, 12), Ok(()));
    assert_eq!(state.get_vault(), Some(10));
    assert_eq!(state.get_pool(), Some(11));
    assert_eq!(state.get_oracle(), Some(12));
}
