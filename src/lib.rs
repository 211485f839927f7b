//! A collateralized lending engine: collateral, borrowing against it, liquidity supply,
//! interest accrual and liquidation, each operation specified over an abstract model of
//! the engine's state and verified against it.
use vstd::prelude::*;

pub mod account;
pub mod error;
pub mod events;
pub mod io;
pub mod laws;
pub mod ledger;
pub mod model;
pub mod rates;
pub mod service;
pub mod storage;
pub mod vft;

verus! {

} // verus!
