//! A collateralized lending ledger with a cross-chain message protocol.
//!
//! All monetary ratios are fixed-point with scale `PRECISION` (1e18). Oracle
//! prices are USD quotes with eight decimals. Every operation is a function
//! from the stored accounts and its inputs to either the updated accounts or
//! an error, in which case nothing has been changed.
pub mod error;
pub mod fixed;
pub mod risk;
pub mod state;
pub mod ledger;
pub mod wire;
pub mod crosschain;
pub mod laws;
