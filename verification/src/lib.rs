//! Accounting core of a two-asset constant-product market maker.
//!
//! The library keeps per-account balances for a base asset, a paired token
//! and liquidity shares, together with the pool's reserves and the total
//! share supply. Deposits mint shares, withdrawals redeem them
//! proportionally, and trades are priced by the fee-bearing
//! constant-product formula. Every operation validates all of its
//! preconditions first and only then commits its writes, so a failed call
//! leaves the state untouched.

pub mod arith;
pub mod laws;
pub mod ledger;
pub mod model;
pub mod pool;
pub mod swap;
pub mod types;
