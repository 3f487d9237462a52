//! A collateralized lending ledger: users lock a collateral asset, borrow a
//! debt asset against it at a fixed loan-to-value ratio, accrue simple
//! interest over time, repay in full or in part, and can be liquidated once
//! the collateral is worth less than what they owe.
//!
//! Every operation is a pure state transition on plain values. Moving assets,
//! reading the clock and querying the price feed are left to the caller, who
//! hands the results in as arguments.

pub mod address;
pub mod error;
pub mod rates;
pub mod ledger;
pub mod liquidation;
pub mod instruction;
pub mod vault;
