//! Error taxonomy of the pipeline. Every stage fails fast and the
//! orchestrator surfaces the first error; no stage silently swallows one.

use vstd::prelude::*;

verus! {

/// Rejection of a function name / calldata combination before any work is done.
#[derive(Debug, Clone, PartialEq, Eq)]
pub enum ValidationError {
    /// The function name is not in the supported set, or the calldata shape
    /// does not match its arity. Carries the offending name for diagnostics.
    UnsupportedFunction { name: String },
}

/// A calldata string that does not parse into its typed value.
#[derive(Debug, Clone, PartialEq, Eq)]
pub enum DecodeError {
    /// `position` is the index of the offending argument inside the calldata
    /// list; `raw` is the string that failed to parse.
    MalformedArgument { position: usize, raw: String },
}

/// Failure to build a typed invocation from a function name and calldata.
#[derive(Debug, Clone, PartialEq, Eq)]
pub enum BuildError {
    UnsupportedFunction { name: String },
    MalformedArgument { position: usize, raw: String },
}

/// Fatal condition of the CSV audit ledger. The ledger is never guessed at
/// or auto-repaired.
#[derive(Debug, Clone, PartialEq, Eq)]
pub enum LedgerError {
    /// An existing ledger file holds a header but no data rows.
    EmptyLedger,
    /// An existing header differs from the fixed schema in length, names or order.
    SchemaMismatch,
    /// The ledger content cannot be read as rows of the schema.
    IoFailure,
    /// Every remaining derivation index would overflow the index type.
    IndexExhausted,
}

/// Failure of an on-chain call, surfaced with the best available reason.
#[derive(Debug, Clone, PartialEq, Eq)]
pub enum ExecutionError {
    /// Submission was rejected (reverted, insufficient funds, nonce conflict).
    ChainRejected { reason: String },
    /// Waiting for on-chain inclusion timed out.
    Timeout,
    /// The confirmation receipt lacks a required field or holds one that
    /// does not parse. Carries the field name.
    MalformedReceipt { field: String },
}

/// A chain id outside the recognized set.
#[derive(Debug, Clone, PartialEq, Eq)]
pub enum ChainSelectionError {
    UnsupportedChain { chain_id: u32 },
}

/// The error a whole run surfaces: the first stage failure, unchanged.
#[derive(Debug, Clone, PartialEq, Eq)]
pub enum PipelineError {
    Chain(ChainSelectionError),
    Ledger(LedgerError),
    Validation(ValidationError),
    Decode(DecodeError),
    Build(BuildError),
    Execution(ExecutionError),
}

} // verus!
