//! The liquidation engine's persistent state.
use vstd::prelude::*;

use crate::common::AccountId;

verus! {

/// The addresses the engine works with.
#[derive(Debug, Clone, Copy, PartialEq, Eq, Structural)]
pub struct EngineState {
    pub admin: Option<AccountId>,
    pub vault: Option<AccountId>,
    pub pool: Option<AccountId>,
    pub oracle: Option<AccountId>,
}

impl EngineState {
    /// An uninitialised engine.
    pub fn new() -> (s: Self)
        ensures
            s == (EngineState { admin: None, vault: None, pool: None, oracle: None }),
    {
        EngineState { admin: None, vault: None, pool: None, oracle: None }
    }

    /// Whether an administrator is recorded.
    pub fn has_admin(&self) -> (r: bool)
        ensures
            r == self.admin is Some,
    {
        self.admin.is_some()
    }

    /// The administrator, if any.
    pub fn get_admin(&self) -> (r: Option<AccountId>)
        ensures
            r == self.admin,
    {
        self.admin
    }

    /// The vault, if any.
    pub fn get_vault(&self) -> (r: Option<AccountId>)
        ensures
            r == self.vault,
    {
        self.vault
    }

    /// The lending pool, if any.
    pub fn get_pool(&self) -> (r: Option<AccountId>)
        ensures
            r == self.pool,
    {
        self.pool
    }

    /// The oracle, if any.
    pub fn get_oracle(&self) -> (r: Option<AccountId>)
        ensures
            r == self.oracle,
    {
        self.oracle
    }
}

} // verus!
