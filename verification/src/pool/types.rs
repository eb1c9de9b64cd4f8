//! Values the lending pool takes and returns.
use vstd::prelude::*;

verus! {

/// Identifies which pool operation to pause or unpause.
#[derive(Debug, Clone, Copy, PartialEq, Eq, Structural)]
pub enum PauseFlag {
    Supply,
    Borrow,
    Repay,
    WithdrawLiquidity,
}

/// The bit of a pause flag in the pool's pause mask.
pub open spec fn pool_pause_bit(flag: PauseFlag) -> u32 {
    match flag {
        PauseFlag::Supply => 1,
        PauseFlag::Borrow => 2,
        PauseFlag::Repay => 4,
        PauseFlag::WithdrawLiquidity => 8,
    }
}

impl PauseFlag {
    /// The single bit of this flag in the pause mask: `1 << i` for the
    /// flag's position `i` in declaration order.
    pub fn bit(&self) -> (b: u32)
        ensures
            b == pool_pause_bit(*self),
    {
        match self {
            PauseFlag::Supply => 1,
            PauseFlag::Borrow => 2,
            PauseFlag::Repay => 4,
            PauseFlag::WithdrawLiquidity => 8,
        }
    }
}

/// Name of a pause flag as published in events.
pub fn pause_flag_symbol(flag: &PauseFlag) -> (s: &'static str)
    ensures
        s@ == (match *flag {
            PauseFlag::Supply => "supply"@,
            PauseFlag::Borrow => "borrow"@,
            PauseFlag::Repay => "repay"@,
            PauseFlag::WithdrawLiquidity => "withdraw_liq"@,
        }),
{
    match flag {
        PauseFlag::Supply => "supply",
        PauseFlag::Borrow => "borrow",
        PauseFlag::Repay => "repay",
        PauseFlag::WithdrawLiquidity => "withdraw_liq",
    }
}

/// How a repayment was applied: the amount taken from the borrower, of
/// which first the accrued interest and then the principal.
#[derive(Debug, Clone, Copy, PartialEq, Eq, Structural)]
pub struct Repayment {
    pub payment: i128,
    pub interest_paid: i128,
    pub principal_paid: i128,
}

} // verus!
