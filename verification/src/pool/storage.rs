//! The lending pool's persistent state and its primitive accessors.
use vstd::prelude::*;

use std::collections::HashMap;

use crate::common::{AccountId, Debt};
use crate::pool::types::{pool_pause_bit, PauseFlag};

verus! {

broadcast use vstd::std_specs::hash::group_hash_axioms;

/// The debt of a borrower who owes nothing.
pub open spec fn zero_debt() -> Debt {
    Debt { principal: 0, accrued_interest: 0, interest_rate_bps: 0, last_accrual_at: 0 }
}

/// The lending pool's persistent state.
pub struct PoolState {
    /// Administrator.
    pub admin: Option<AccountId>,
    /// Collateral vault consulted for borrow limits and health.
    pub vault: Option<AccountId>,
    /// Price oracle.
    pub oracle: Option<AccountId>,
    /// The single asset supplied and borrowed.
    pub borrow_asset: Option<AccountId>,
    /// Annual interest rate of new debts (zero before initialisation).
    pub interest_rate_bps: u32,
    /// Bitmask of paused operations.
    pub pause_mask: u32,
    /// Liquidity supplied by all lenders.
    pub total_supply: i128,
    /// Principal lent out to all borrowers.
    pub total_borrowed: i128,
    /// Liquidity supplied by each lender (absent reads as zero).
    pub supplies: HashMap<AccountId, i128>,
    /// Each borrower's debt (absent reads as no debt).
    pub debts: HashMap<AccountId, Debt>,
}

impl PoolState {
    /// Liquidity supplied by `user`.
    pub open spec fn supply_of(&self, user: AccountId) -> int {
        if self.supplies@.contains_key(user) {
            self.supplies@[user] as int
        } else {
            0
        }
    }

    /// The recorded debt of `user`, without interest accrued since.
    pub open spec fn debt_of(&self, user: AccountId) -> Debt {
        if self.debts@.contains_key(user) {
            self.debts@[user]
        } else {
            zero_debt()
        }
    }

    /// Whether `flag`'s operation is paused.
    pub open spec fn paused(&self, flag: PauseFlag) -> bool {
        self.pause_mask & pool_pause_bit(flag) != 0
    }

    /// Well-formedness: no recorded supply, principal or interest is
    /// negative.
    pub open spec fn wf(&self) -> bool {
        &&& forall|u: AccountId| #[trigger] self.supplies@.contains_key(u) ==> self.supplies@[u] >= 0
        &&& forall|u: AccountId| #[trigger] self.debts@.contains_key(u) ==> self.debts@[u].principal >= 0
            && self.debts@[u].accrued_interest >= 0
    }

    /// The two states agree on everything but the ledgers of supply and
    /// debt and their totals.
    pub open spec fn same_settings(&self, other: &PoolState) -> bool {
        &&& self.admin == other.admin
        &&& self.vault == other.vault
        &&& self.oracle == other.oracle
        &&& self.borrow_asset == other.borrow_asset
        &&& self.interest_rate_bps == other.interest_rate_bps
        &&& self.pause_mask == other.pause_mask
    }

    /// An uninitialised pool.
    pub fn new() -> (s: Self)
        ensures
            s.admin is None,
            s.vault is None,
            s.oracle is None,
            s.borrow_asset is None,
            s.interest_rate_bps == 0,
            s.pause_mask == 0,
            s.total_supply == 0,
            s.total_borrowed == 0,
            s.supplies@ == Map::<AccountId, i128>::empty(),
            s.debts@ == Map::<AccountId, Debt>::empty(),
            s.wf(),
    {
        PoolState {
            admin: None,
            vault: None,
            oracle: None,
            borrow_asset: None,
            interest_rate_bps: 0,
            pause_mask: 0,
            total_supply: 0,
            total_borrowed: 0,
            supplies: HashMap::new(),
            debts: HashMap::new(),
        }
    }

    /// Whether an administrator is recorded.
    pub fn has_admin(&self) -> (r: bool)
        ensures
            r == self.admin is Some,
    {
        self.admin.is_some()
    }

    /// The administrator, if any.
    pub fn get_admin(&self) -> (r: Option<AccountId>)
        ensures
            r == self.admin,
    {
        self.admin
    }

    /// The vault, if any.
    pub fn get_vault(&self) -> (r: Option<AccountId>)
        ensures
            r == self.vault,
    {
        self.vault
    }

    /// The oracle, if any.
    pub fn get_oracle(&self) -> (r: Option<AccountId>)
        ensures
            r == self.oracle,
    {
        self.oracle
    }

    /// The borrow asset, if any.
    pub fn get_borrow_asset(&self) -> (r: Option<AccountId>)
        ensures
            r == self.borrow_asset,
    {
        self.borrow_asset
    }

    /// The interest rate of new debts, in bps a year.
    pub fn get_interest_rate_bps(&self) -> (r: u32)
        ensures
            r == self.interest_rate_bps,
    {
        self.interest_rate_bps
    }

    /// The pause mask.
    pub fn get_pause_mask(&self) -> (r: u32)
        ensures
            r == self.pause_mask,
    {
        self.pause_mask
    }

    /// Whether `flag`'s operation is paused.
    pub fn is_operation_paused(&self, flag: &PauseFlag) -> (r: bool)
        ensures
            r == self.paused(*flag),
    {
        self.pause_mask & flag.bit() != 0
    }

    /// Liquidity supplied by all lenders.
    pub fn get_total_supply(&self) -> (r: i128)
        ensures
            r == self.total_supply,
    {
        self.total_supply
    }

    /// Principal lent out to all borrowers.
    pub fn get_total_borrowed(&self) -> (r: i128)
        ensures
            r == self.total_borrowed,
    {
        self.total_borrowed
    }

    /// Liquidity supplied by `user`.
    pub fn get_user_supply(&self, user: AccountId) -> (r: i128)
        ensures
            r == self.supply_of(user),
    {
        match self.supplies.get(&user) {
            Some(v) => *v,
            None => 0,
        }
    }

    /// The recorded debt of `user` (no debt when none is recorded).
    pub fn load_debt(&self, user: AccountId) -> (r: Debt)
        ensures
            r == self.debt_of(user),
    {
        match self.debts.get(&user) {
            Some(d) => *d,
            None => Debt { principal: 0, accrued_interest: 0, interest_rate_bps: 0, last_accrual_at: 0 },
        }
    }
}

} // verus!
