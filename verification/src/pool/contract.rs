//! The lending pool contract.
use vstd::prelude::*;

verus! {

/// The lending pool as a contract. Its entry points are the functions of
/// the `admin`, `liquidity`, `debt`, `borrow` and `repay` modules, each
/// taking the pool's state; the host authorises callers, moves tokens and
/// publishes events around them.
pub struct PoolContract;

} // verus!
