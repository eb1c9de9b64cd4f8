# lending_protocol

A collateralised lending protocol made of three contracts, with the logic
verified by Verus:

- **collateral vault** (`src/vault`): users deposit listed assets as
  collateral and withdraw them while 110% of their debt stays covered; the
  registered liquidation engine may seize collateral; assets, risk
  configuration, pausing, upgrades and read views.
- **lending pool** (`src/pool`): lenders supply the borrow asset, borrowers
  draw it within a limit set by their collateral's loan-to-value, interest
  accrues linearly, repayments settle interest before principal.
- **liquidation engine** (`src/engine`): decides when a borrower can be
  liquidated, how much may be repaid (restoring a health factor of 1.10,
  at most half the debt), the 8% bonus, and which collateral is seized,
  largest balance first.

`src/common.rs` holds the shared constants and fixed-point arithmetic. Each
contract's state is a plain value, and each operation is a function from
that state and its inputs (including what the contract reads from the
others) to the next state and a result; the `properties` modules state
and prove laws that span operations.

`app/` hosts the three contracts on Soroban: storage, authorisation,
cross-contract calls, token transfers. `tests/` exercises the library.
