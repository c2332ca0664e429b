//! The closed set of contract invocations, the builder that produces one
//! from name plus calldata, and the classification of execution results.

use crate::address::{addr_bytes_of, valid_address_str, Address};
use crate::calldata::{
    one_arg_function, parses_as_amount, reveal_function_names, two_arg_function,
};
use crate::errors::{BuildError, ExecutionError};
use crate::receipt::{calc_tx_fee, gas_field_val, get_gas_price, get_gas_used, get_tx_hash,
    json_str_field};
use crate::text::{dec_val, str_eq};
use crate::u256::U256;
use crate::wallet::Wallet;
use vstd::prelude::*;

verus! {

/// One invocation of the token contract, ready for execution. The acting
/// wallet is attached only to the state-changing variants.
#[derive(Debug, PartialEq, Eq)]
pub enum Purse404FunctionCall {
    /// Read the deployment address.
    Address,
    /// Read the token balance of an address.
    BalanceOf(Address),
    /// Read the minted NFT count.
    Minted,
    /// Read the current minting cost.
    MintingCost,
    /// Read the NFT token ids owned by an address.
    Owned(Address),
    /// Transfer an amount to a recipient.
    Transfer(Wallet, Address, U256),
    /// Mint NFT units, consuming the message value.
    MintERC721(Wallet, U256, U256),
    /// Mint an amount to an authorized address.
    Mint(Wallet, Address, U256),
}

impl Purse404FunctionCall {
    /// Whether executing this call changes on-chain state.
    pub open spec fn spec_is_state_change(&self) -> bool {
        self is Transfer || self is MintERC721 || self is Mint
    }

    /// Whether executing this call changes on-chain state; only such a call
    /// triggers the ledger append.
    pub fn is_state_change(&self) -> (r: bool)
        ensures
            r == self.spec_is_state_change(),
    {
        match self {
            Purse404FunctionCall::Transfer(_, _, _) => true,
            Purse404FunctionCall::MintERC721(_, _, _) => true,
            Purse404FunctionCall::Mint(_, _, _) => true,
            _ => false,
        }
    }

    /// Builds the invocation for the given function name, message value,
    /// calldata and wallet. One branch per supported name; unsupported
    /// names fail with the name preserved, malformed arguments with their
    /// position and text.
    pub fn from_data(function: &str, message_value: &U256, calldata: Vec<String>, wallet: Wallet)
        -> (r: Result<Purse404FunctionCall, BuildError>)
        requires
            one_arg_function(function@) ==> calldata@.len() >= 1,
            two_arg_function(function@) ==> calldata@.len() >= 2,
        ensures
            function@ == "address"@ ==> (r matches Ok(c) && c is Address),
            function@ == "minted"@ ==> (r matches Ok(c) && c is Minted),
            function@ == "mintingCost"@ ==> (r matches Ok(c) && c is MintingCost),
            function@ == "balanceOf"@ ==> (match r {
                Ok(c) => valid_address_str(calldata.deep_view()[0]) && (c matches
                    Purse404FunctionCall::BalanceOf(a) && a@ == addr_bytes_of(
                    calldata.deep_view()[0],
                )),
                Err(e) => !valid_address_str(calldata.deep_view()[0]) && malformed_at(
                    e,
                    0,
                    calldata.deep_view()[0],
                ),
            }),
            function@ == "owned"@ ==> (match r {
                Ok(c) => valid_address_str(calldata.deep_view()[0]) && (c matches
                    Purse404FunctionCall::Owned(a) && a@ == addr_bytes_of(calldata.deep_view()[0])),
                Err(e) => !valid_address_str(calldata.deep_view()[0]) && malformed_at(
                    e,
                    0,
                    calldata.deep_view()[0],
                ),
            }),
            function@ == "mintERC721"@ ==> (match r {
                Ok(c) => parses_as_amount(calldata.deep_view()[0]) && (c matches
                    Purse404FunctionCall::MintERC721(w, units, value) && w@ == wallet@ && units@
                    == dec_val(calldata.deep_view()[0]) && value@ == message_value@),
                Err(e) => !parses_as_amount(calldata.deep_view()[0]) && malformed_at(
                    e,
                    0,
                    calldata.deep_view()[0],
                ),
            }),
            function@ == "transfer"@ ==> two_arg_build_ok(
                r,
                calldata.deep_view(),
                wallet@,
                true,
            ),
            function@ == "mint"@ ==> two_arg_build_ok(r, calldata.deep_view(), wallet@, false),
            !crate::calldata::supported_function(function@) ==> (match r {
                Ok(_) => false,
                Err(e) => match e {
                    BuildError::UnsupportedFunction { name } => name@ == function@,
                    _ => false,
                },
            }),
    {
        proof {
            reveal_function_names();
        }
        if str_eq(function, "address") {
            Ok(Purse404FunctionCall::Address)
        } else if str_eq(function, "balanceOf") {
            match Address::from_hex_str(calldata[0].as_str()) {
                Some(addr) => Ok(Purse404FunctionCall::BalanceOf(addr)),
                None => Err(
                    BuildError::MalformedArgument { position: 0, raw: calldata[0].clone() },
                ),
            }
        } else if str_eq(function, "minted") {
            Ok(Purse404FunctionCall::Minted)
        } else if str_eq(function, "mintingCost") {
            Ok(Purse404FunctionCall::MintingCost)
        } else if str_eq(function, "owned") {
            match Address::from_hex_str(calldata[0].as_str()) {
                Some(addr) => Ok(Purse404FunctionCall::Owned(addr)),
                None => Err(
                    BuildError::MalformedArgument { position: 0, raw: calldata[0].clone() },
                ),
            }
        } else if str_eq(function, "transfer") {
            match Address::from_hex_str(calldata[0].as_str()) {
                Some(to) => match U256::from_dec_str(calldata[1].as_str()) {
                    Some(amount) => Ok(Purse404FunctionCall::Transfer(wallet, to, amount)),
                    None => Err(
                        BuildError::MalformedArgument { position: 1, raw: calldata[1].clone() },
                    ),
                },
                None => Err(
                    BuildError::MalformedArgument { position: 0, raw: calldata[0].clone() },
                ),
            }
        } else if str_eq(function, "mintERC721") {
            match U256::from_dec_str(calldata[0].as_str()) {
                Some(units) => Ok(
                    Purse404FunctionCall::MintERC721(wallet, units, message_value.dup()),
                ),
                None => Err(
                    BuildError::MalformedArgument { position: 0, raw: calldata[0].clone() },
                ),
            }
        } else if str_eq(function, "mint") {
            match Address::from_hex_str(calldata[0].as_str()) {
                Some(to) => match U256::from_dec_str(calldata[1].as_str()) {
                    Some(amount) => Ok(Purse404FunctionCall::Mint(wallet, to, amount)),
                    None => Err(
                        BuildError::MalformedArgument { position: 1, raw: calldata[1].clone() },
                    ),
                },
                None => Err(
                    BuildError::MalformedArgument { position: 0, raw: calldata[0].clone() },
                ),
            }
        } else {
            Err(BuildError::UnsupportedFunction { name: function.to_owned() })
        }
    }
}

/// The error carries the given position and raw argument text.
pub open spec fn malformed_at(e: BuildError, position: int, raw: Seq<char>) -> bool {
    match e {
        BuildError::MalformedArgument { position: p, raw: r } => p == position && r@ == raw,
        _ => false,
    }
}

/// The contract of a two-argument build: recipient at position 0, amount at
/// position 1, the wallet attached; `is_transfer` selects the variant.
pub open spec fn two_arg_build_ok(
    r: Result<Purse404FunctionCall, BuildError>,
    cd: Seq<Seq<char>>,
    wallet_addr: Seq<u8>,
    is_transfer: bool,
) -> bool {
    match r {
        Ok(c) => valid_address_str(cd[0]) && parses_as_amount(cd[1]) && (match c {
            Purse404FunctionCall::Transfer(w, to, amount) => is_transfer && w@ == wallet_addr
                && to@ == addr_bytes_of(cd[0]) && amount@ == dec_val(cd[1]),
            Purse404FunctionCall::Mint(w, to, amount) => !is_transfer && w@ == wallet_addr && to@
                == addr_bytes_of(cd[0]) && amount@ == dec_val(cd[1]),
            _ => false,
        }),
        Err(e) => match e {
            BuildError::MalformedArgument { position, raw } => {
                if valid_address_str(cd[0]) {
                    !parses_as_amount(cd[1]) && position == 1 && raw@ == cd[1]
                } else {
                    position == 0 && raw@ == cd[0]
                }
            },
            _ => false,
        },
    }
}

/// One result of executing an invocation, mirroring the contract's return
/// shapes. Only a state-change result carries fee accounting and triggers
/// the ledger append.
#[derive(Debug, PartialEq, Eq)]
pub enum Purse404Results {
    Address(Address),
    U256Result(U256),
    U256VecResult(Vec<U256>),
    StringResult(String),
    StringVecResult(Vec<String>),
    /// Transaction hash, gas price (gwei), gas used, fee (ETH), receipt JSON.
    StateChangeResult((String, String, String, String, String)),
}

/// Pure execution-side logic: receipt summarization and revert naming.
/// The chain transport itself lives with the caller.
pub struct Purse404Executor;

impl Purse404Executor {
    /// Condenses a confirmation receipt into the state-change result:
    /// transaction hash, gas price in gwei, gas used, fee in ETH, and the
    /// receipt document itself. Fails exactly when the document lacks a
    /// well-formed hash or gas field.
    pub fn summarize_receipt(receipt_json: &str) -> (r: Result<Purse404Results, ExecutionError>)
        ensures
            match r {
                Ok(res) => json_str_field(receipt_json@, "transactionHash"@) is Some
                    && gas_field_val(receipt_json@, "gasUsed"@) is Some && gas_field_val(
                    receipt_json@,
                    "effectiveGasPrice"@,
                ) is Some && (match res {
                    Purse404Results::StateChangeResult((hash, price, used, fee, doc)) => {
                        &&& json_str_field(receipt_json@, "transactionHash"@) == Some(hash@)
                        &&& price@ == crate::units::shifted_decimal_str(
                            crate::text::dec_str_of(gas_field_val(receipt_json@, "effectiveGasPrice"@)->0),
                            9,
                        )
                        &&& used@ == crate::text::dec_str_of(
                            gas_field_val(receipt_json@, "gasUsed"@)->0,
                        )
                        &&& fee@ == crate::units::shifted_decimal_str(
                            crate::text::dec_str_of(
                                gas_field_val(receipt_json@, "gasUsed"@)->0 * gas_field_val(
                                    receipt_json@,
                                    "effectiveGasPrice"@,
                                )->0,
                            ),
                            18,
                        )
                        &&& doc@ == receipt_json@
                    },
                    _ => false,
                }),
                Err(_) => json_str_field(receipt_json@, "transactionHash"@) is None
                    || gas_field_val(receipt_json@, "gasUsed"@) is None || gas_field_val(
                    receipt_json@,
                    "effectiveGasPrice"@,
                ) is None,
            },
    {
        let tx_hash = match get_tx_hash(receipt_json) {
            Ok(h) => h,
            Err(e) => {
                return Err(e);
            },
        };
        let gas_price = match get_gas_price(receipt_json) {
            Ok(p) => p,
            Err(e) => {
                return Err(e);
            },
        };
        let gas_used = match get_gas_used(receipt_json) {
            Ok(u) => u,
            Err(e) => {
                return Err(e);
            },
        };
        let tx_fee = match calc_tx_fee(receipt_json) {
            Ok(f) => f,
            Err(e) => {
                return Err(e);
            },
        };
        Ok(
            Purse404Results::StateChangeResult(
                (tx_hash, gas_price, gas_used, tx_fee, receipt_json.to_owned()),
            ),
        )
    }
}

/// The rendering of a known 4-byte revert signature; unknown signatures
/// pass through verbatim.
pub open spec fn error_sig_name(sig: Seq<char>) -> Seq<char> {
    if sig == "0x65c62bb3"@ {
        "InsufficientInactiveBalance()"@
    } else if sig == "0xab0a033b"@ {
        "IncorrectEthValue()"@
    } else if sig == "0x303b682f"@ {
        "MintLimitReached()"@
    } else {
        sig
    }
}

/// Maps a known revert signature to its human-readable error name; any
/// other signature is handed back unchanged.
pub fn map_error_sig(error_sig: &str) -> (r: String)
    ensures
        r@ == error_sig_name(error_sig@),
{
    if str_eq(error_sig, "0x65c62bb3") {
        "InsufficientInactiveBalance()".to_owned()
    } else if str_eq(error_sig, "0xab0a033b") {
        "IncorrectEthValue()".to_owned()
    } else if str_eq(error_sig, "0x303b682f") {
        "MintLimitReached()".to_owned()
    } else {
        error_sig.to_owned()
    }
}

} // verus!
