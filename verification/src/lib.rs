//! A staking ledger: principals lock a fungible token into a shared pool and
//! receive a tiered power level and a derived voting weight, computed
//! deterministically from the staked amount. The ledger keeps per-principal
//! stake records and a pool aggregate whose totals always reconcile with the
//! sum of the individual stakes.

pub mod errors;
pub mod ledger;
pub mod power;
pub mod state;
