//! The liquidation engine contract.
use vstd::prelude::*;

verus! {

/// The liquidation engine as a contract. Its entry points are the functions
/// of the `admin` and `liquidate` modules, taking the engine's state and
/// what it reads from the vault, the pool and the oracle; the host
/// authorises callers, makes the cross-contract calls and token transfers
/// of a liquidation plan, and publishes events.
pub struct LiquidationContract;

} // verus!
