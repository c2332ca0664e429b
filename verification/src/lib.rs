//! Verified core of a command-line tool that drives a single ERC-404-style
//! token deployment: calldata validation and decoding, typed invocation
//! building, receipt summarization, and an append-only CSV audit ledger
//! with a fixed schema and derivation-index reconciliation.
//!
//! Chain transport, wallet cryptography and file handles live outside this
//! crate; every function here is pure and carries a contract.

pub mod errors;
pub mod text;
pub mod u256;
pub mod address;
pub mod units;
pub mod wallet;
pub mod calldata;
pub mod receipt;
pub mod executor;
pub mod csvfmt;
pub mod ledger;
pub mod pipeline;
