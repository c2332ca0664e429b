//! The command orchestrator: a linear pipeline that resolves the
//! derivation index, validates and decodes the calldata, builds the typed
//! invocation, and—only after a state-changing execution—appends one
//! ledger row. Every stage failure aborts the remaining stages; a
//! read-only run never writes the ledger. The chain calls themselves are
//! performed by the caller between these stages.

use crate::address::{addr_bytes_of, valid_address_str, zero_addr_bytes, Address};
use crate::calldata::{
    parses_as_amount, reveal_function_names, transfer_or_mint_recipient_n_calldata,
    two_arg_function, valid_calldata_shape, validate_purse_calldata, zero_arg_function,
};
use crate::errors::{ChainSelectionError, LedgerError, PipelineError};
use crate::executor::{two_arg_build_ok, Purse404FunctionCall, Purse404Results};
use crate::ledger::{
    doc_header_ok, doc_parses, doc_rows, header_fields, ledger_row_fields, max_data_derivation,
    resolve_derivation, wf_ledger_doc, write_to_csv,
};
use crate::text::dec_val;
use crate::u256::U256;
use crate::wallet::Wallet;
use vstd::prelude::*;

verus! {

/// The already-parsed command-line surface, assembled once at process
/// start and passed by value into the orchestrator.
#[derive(Debug, PartialEq, Eq)]
pub struct ContractCliArgs {
    /// Explicit derivation index; zero is the sentinel for "resolve from
    /// the ledger".
    pub derivation_number: u32,
    /// Contract function to execute.
    pub function: String,
    /// Executed function arguments.
    pub calldata: Option<Vec<String>>,
    /// Native value attached to the call.
    pub msg_value: U256,
    /// Chain id: 1 for mainnet, 11155111 for sepolia.
    pub chain_id: u32,
    /// Path of the CSV ledger.
    pub file_path: String,
}

/// The token-contract command with its arguments.
#[derive(Debug, PartialEq, Eq)]
pub struct PurseCommand {
    pub cli_args: ContractCliArgs,
}

/// The historical single-command form, kept alongside `PurseCommand`.
#[derive(Debug, PartialEq, Eq)]
pub struct CliCommand {
    pub cli_args: ContractCliArgs,
}

/// The commands the tool offers.
#[derive(Debug, PartialEq, Eq)]
pub enum Commands {
    Purse(PurseCommand),
}

/// The whole command-line interface.
#[derive(Debug, PartialEq, Eq)]
pub struct Cli {
    pub command: Commands,
}

/// The chain ids this tool recognizes.
pub open spec fn recognized_chain(chain_id: u32) -> bool {
    chain_id == 1 || chain_id == 11155111
}

/// Rejects a chain id outside the recognized set, before any wallet work.
pub fn check_chain(chain_id: u32) -> (r: Result<(), ChainSelectionError>)
    ensures
        r is Ok <==> recognized_chain(chain_id),
        r matches Err(e) ==> e == (ChainSelectionError::UnsupportedChain { chain_id }),
{
    if chain_id == 1 || chain_id == 11155111 {
        Ok(())
    } else {
        Err(ChainSelectionError::UnsupportedChain { chain_id })
    }
}

/// The derivation index a run uses: an explicit nonzero argument wins over
/// the ledger-resolved suggestion; the zero sentinel accepts it.
pub fn choose_derivation(resolved: u32, argument: u32) -> (r: u32)
    ensures
        argument == 0 ==> r == resolved,
        argument != 0 ==> r == argument,
{
    if argument == 0 {
        resolved
    } else {
        argument
    }
}

/// What the ledger suggests before any override: zero for a fresh ledger,
/// one past the highest recorded index otherwise.
pub open spec fn suggested_derivation(ledger: Option<String>) -> nat {
    match ledger {
        None => 0,
        Some(c) => max_data_derivation(doc_rows(c@)) + 1,
    }
}

/// The ledger allows a run: absent, or well formed with at least one data
/// row and room left in the index space.
pub open spec fn ledger_allows_run(ledger: Option<String>) -> bool {
    match ledger {
        None => true,
        Some(c) => wf_ledger_doc(c@) && doc_rows(c@).len() > 1 && max_data_derivation(doc_rows(c@))
            < u32::MAX,
    }
}

/// What a run knows once the early stages are done.
#[derive(Debug, PartialEq, Eq)]
pub struct RunPlan {
    /// The derivation index the wallet will be derived at.
    pub derivation_number: u32,
    /// The recognized chain id.
    pub chain_id: u32,
}

/// The stages that precede wallet derivation, in order: resolve the
/// derivation index from the ledger, apply the caller's override, and
/// check the chain id. The first failure aborts the run.
pub fn resolve_run(args: &ContractCliArgs, ledger: &Option<String>) -> (r: Result<
    RunPlan,
    PipelineError,
>)
    ensures
        match r {
            Ok(plan) => ledger_allows_run(*ledger) && recognized_chain(args.chain_id)
                && plan.chain_id == args.chain_id && plan.derivation_number as nat == (
            if args.derivation_number == 0 {
                suggested_derivation(*ledger)
            } else {
                args.derivation_number as nat
            }),
            Err(e) => match e {
                PipelineError::Ledger(le) => match *ledger {
                    Option::None => false,
                    Option::Some(c) => match le {
                        LedgerError::EmptyLedger => wf_ledger_doc(c@) && doc_rows(c@).len() <= 1,
                        LedgerError::IndexExhausted => wf_ledger_doc(c@) && doc_rows(c@).len() > 1
                            && max_data_derivation(doc_rows(c@)) == u32::MAX,
                        LedgerError::SchemaMismatch => doc_parses(c@) && doc_rows(c@).len() >= 1
                            && doc_rows(c@)[0] != header_fields(),
                        LedgerError::IoFailure => !doc_parses(c@) || (doc_header_ok(c@)
                            && !crate::ledger::doc_data_ok(c@)),
                    },
                },
                PipelineError::Chain(ce) => ledger_allows_run(*ledger) && !recognized_chain(
                    args.chain_id,
                ) && ce == (ChainSelectionError::UnsupportedChain { chain_id: args.chain_id }),
                _ => false,
            },
        },
{
    let resolved = match resolve_derivation(ledger) {
        Ok(v) => v,
        Err(e) => {
            return Err(PipelineError::Ledger(e));
        },
    };
    let derivation_number = choose_derivation(resolved, args.derivation_number);
    match check_chain(args.chain_id) {
        Ok(_) => Ok(RunPlan { derivation_number, chain_id: args.chain_id }),
        Err(e) => Err(PipelineError::Chain(e)),
    }
}

fn clone_string_vec(v: &Vec<String>) -> (r: Vec<String>)
    ensures
        r.deep_view() == v.deep_view(),
{
    let mut out: Vec<String> = Vec::new();
    let n = v.len();
    let mut i: usize = 0;
    while i < n
        invariant
            0 <= i <= n,
            n == v@.len(),
            out@.len() == i,
            forall|j: int| 0 <= j < i ==> out@[j]@ == #[trigger] v@[j]@,
        decreases n - i,
    {
        out.push(v[i].clone());
        i += 1;
    }
    proof {
        assert(out.deep_view() =~= v.deep_view());
    }
    out
}

/// The stages between wallet construction and the balance snapshots:
/// validate the calldata shape, decode the accounting recipient and
/// amount, and build the typed invocation. On success the three travel
/// together; the first failure aborts the run.
pub fn build_call(args: &ContractCliArgs, wallet: Wallet) -> (r: Result<
    (Purse404FunctionCall, Address, U256),
    PipelineError,
>)
    ensures
        !valid_calldata_shape(args.function@, args.calldata.deep_view()) ==> (match r {
            Ok(_) => false,
            Err(e) => match e {
                PipelineError::Validation(ve) => match ve {
                    crate::errors::ValidationError::UnsupportedFunction { name } => name@
                        == args.function@,
                },
                _ => false,
            },
        }),
        valid_calldata_shape(args.function@, args.calldata.deep_view())
            && zero_arg_function(args.function@) ==> (match r {
            Ok((call, recipient, amount)) => recipient@ == zero_addr_bytes() && amount@ == 0 && (
            call is Address || call is Minted || call is MintingCost),
            Err(_) => false,
        }),
        valid_calldata_shape(args.function@, args.calldata.deep_view()) && (args.function@
            == "balanceOf"@ || args.function@ == "owned"@) ==> (match r {
            Ok((call, recipient, amount)) => valid_address_str(args.calldata.deep_view()->0[0])
                && recipient@ == zero_addr_bytes() && amount@ == 0 && ((call matches
            Purse404FunctionCall::BalanceOf(a) && a@ == addr_bytes_of(
                args.calldata.deep_view()->0[0],
            )) || (call matches Purse404FunctionCall::Owned(a) && a@ == addr_bytes_of(
                args.calldata.deep_view()->0[0],
            ))),
            Err(e) => !valid_address_str(args.calldata.deep_view()->0[0]) && (match e {
                PipelineError::Build(be) => crate::executor::malformed_at(
                    be,
                    0,
                    args.calldata.deep_view()->0[0],
                ),
                _ => false,
            }),
        }),
        valid_calldata_shape(args.function@, args.calldata.deep_view()) && args.function@
            == "mintERC721"@ ==> (match r {
            Ok((call, recipient, amount)) => parses_as_amount(args.calldata.deep_view()->0[0])
                && recipient@ == zero_addr_bytes() && amount@ == dec_val(
                args.calldata.deep_view()->0[0],
            ) && (call matches Purse404FunctionCall::MintERC721(w, units, value) && w@ == wallet@
                && units@ == dec_val(args.calldata.deep_view()->0[0]) && value@
                == args.msg_value@),
            Err(e) => !parses_as_amount(args.calldata.deep_view()->0[0]) && (match e {
                PipelineError::Decode(de) => match de {
                    crate::errors::DecodeError::MalformedArgument { position, raw } => position
                        == 0 && raw@ == args.calldata.deep_view()->0[0],
                },
                _ => false,
            }),
        }),
        valid_calldata_shape(args.function@, args.calldata.deep_view()) && two_arg_function(
            args.function@,
        ) ==> (match r {
            Ok((call, recipient, amount)) => valid_address_str(args.calldata.deep_view()->0[0])
                && parses_as_amount(args.calldata.deep_view()->0[1]) && recipient@
                == addr_bytes_of(args.calldata.deep_view()->0[0]) && amount@ == dec_val(
                args.calldata.deep_view()->0[1],
            ) && two_arg_build_ok(
                Result::<Purse404FunctionCall, crate::errors::BuildError>::Ok(call),
                args.calldata.deep_view()->0,
                wallet@,
                args.function@ == "transfer"@,
            ),
            Err(e) => match e {
                PipelineError::Decode(de) => match de {
                    crate::errors::DecodeError::MalformedArgument { position, raw } => {
                        if valid_address_str(args.calldata.deep_view()->0[0]) {
                            !parses_as_amount(args.calldata.deep_view()->0[1]) && position == 1
                                && raw@ == args.calldata.deep_view()->0[1]
                        } else {
                            position == 0 && raw@ == args.calldata.deep_view()->0[0]
                        }
                    },
                },
                _ => false,
            },
        }),
{
    proof {
        reveal_function_names();
    }
    match validate_purse_calldata(args.function.as_str(), &args.calldata) {
        Ok(_) => {},
        Err(e) => {
            return Err(PipelineError::Validation(e));
        },
    }
    let cdata_vec: Vec<String> = match &args.calldata {
        Some(v) => clone_string_vec(v),
        None => Vec::new(),
    };
    let (recipient, calldata_value) = match transfer_or_mint_recipient_n_calldata(
        args.function.as_str(),
        &cdata_vec,
    ) {
        Ok(p) => p,
        Err(e) => {
            return Err(PipelineError::Decode(e));
        },
    };
    match Purse404FunctionCall::from_data(
        args.function.as_str(),
        &args.msg_value,
        cdata_vec,
        wallet,
    ) {
        Ok(call) => Ok((call, recipient, calldata_value)),
        Err(e) => Err(PipelineError::Build(e)),
    }
}

/// The stages after execution: a read-only result ends the run with no
/// ledger write; a state-change result appends exactly one row, carrying
/// the fee summary and the balance snapshots, to a ledger whose header
/// matched.
pub fn finish_run(
    existing: &Option<String>,
    result: &Purse404Results,
    call_function: &str,
    derivation_number: u32,
    msg_sender: &Address,
    sender_eth_balance_bef: Option<U256>,
    sender_eth_balance_aft: Option<U256>,
    sender_erc20_balance_bef: Option<U256>,
    sender_erc20_balance_aft: Option<U256>,
    msg_recipient: &Address,
    recipient_eth_balance_bef: Option<U256>,
    recipient_eth_balance_aft: Option<U256>,
    recipient_erc20_balance_bef: Option<U256>,
    recipient_erc20_balance_aft: Option<U256>,
    msg_value: Option<U256>,
    calldata_value: Option<U256>,
    msg_sender_owned_token_ids: Option<Vec<U256>>,
) -> (r: Result<Option<String>, PipelineError>)
    ensures
        !(result is StateChangeResult) ==> r == Result::<Option<String>, PipelineError>::Ok(
            Option::None,
        ),
        (match result {
            Purse404Results::StateChangeResult(t) => {
                let row = ledger_row_fields(
                    t.0@,
                    t.1@,
                    t.2@,
                    t.3@,
                    t.4@,
                    call_function@,
                    derivation_number,
                    msg_sender@,
                    sender_eth_balance_bef,
                    sender_eth_balance_aft,
                    sender_erc20_balance_bef,
                    sender_erc20_balance_aft,
                    msg_recipient@,
                    recipient_eth_balance_bef,
                    recipient_eth_balance_aft,
                    recipient_erc20_balance_bef,
                    recipient_erc20_balance_aft,
                    msg_value,
                    calldata_value,
                    msg_sender_owned_token_ids,
                );
                match *existing {
                    Option::None => r matches Ok(out) && (out matches Some(text) && text@
                        == crate::csvfmt::encode_row(header_fields()) + crate::csvfmt::encode_row(
                        row,
                    )),
                    Option::Some(c) => {
                        if (crate::csvfmt::parse_row(c@) matches Some(p) && p.0
                            == header_fields()) {
                            r matches Ok(out) && (out matches Some(text) && text@ == c@
                                + crate::csvfmt::encode_row(row))
                        } else {
                            r == Result::<Option<String>, PipelineError>::Err(
                                PipelineError::Ledger(LedgerError::SchemaMismatch),
                            )
                        }
                    },
                }
            },
            _ => true,
        }),
{
    match result {
        Purse404Results::StateChangeResult(t) => {
            let out = write_to_csv(
                existing,
                t.0.as_str(),
                t.1.as_str(),
                t.2.as_str(),
                t.3.as_str(),
                t.4.as_str(),
                call_function,
                derivation_number,
                msg_sender,
                sender_eth_balance_bef,
                sender_eth_balance_aft,
                sender_erc20_balance_bef,
                sender_erc20_balance_aft,
                msg_recipient,
                recipient_eth_balance_bef,
                recipient_eth_balance_aft,
                recipient_erc20_balance_bef,
                recipient_erc20_balance_aft,
                msg_value,
                calldata_value,
                msg_sender_owned_token_ids,
            );
            match out {
                Ok(text) => Ok(Some(text)),
                Err(e) => Err(PipelineError::Ledger(e)),
            }
        },
        _ => Ok(None),
    }
}

} // verus!
