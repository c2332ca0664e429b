//! Validation and decoding of the function name plus loosely-typed string
//! calldata handed in on the command line.

use crate::address::{addr_bytes_of, valid_address_str, zero_addr_bytes, Address};
use crate::errors::{DecodeError, ValidationError};
use crate::text::{all_digits, dec_val, str_eq};
use crate::u256::{u256_limit, U256};
use vstd::prelude::*;

verus! {

/// Functions that read state and take no calldata.
pub open spec fn zero_arg_function(f: Seq<char>) -> bool {
    f == "address"@ || f == "minted"@ || f == "mintingCost"@
}

/// Functions that take exactly one calldata element.
pub open spec fn one_arg_function(f: Seq<char>) -> bool {
    f == "balanceOf"@ || f == "owned"@ || f == "mintERC721"@
}

/// Functions that take exactly two calldata elements.
pub open spec fn two_arg_function(f: Seq<char>) -> bool {
    f == "transfer"@ || f == "mint"@
}

pub open spec fn supported_function(f: Seq<char>) -> bool {
    zero_arg_function(f) || one_arg_function(f) || two_arg_function(f)
}

/// The calldata shape each function demands. Presence of the container
/// itself is the discriminator for zero-argument functions: an empty but
/// present list does not satisfy them.
pub open spec fn valid_calldata_shape(f: Seq<char>, cd: Option<Seq<Seq<char>>>) -> bool {
    match cd {
        None => zero_arg_function(f),
        Some(args) => (one_arg_function(f) && args.len() == 1) || (two_arg_function(f)
            && args.len() == 2),
    }
}

/// A string that parses as an unsigned 256-bit amount.
pub open spec fn parses_as_amount(s: Seq<char>) -> bool {
    all_digits(s) && dec_val(s) < u256_limit()
}

/// Makes the supported function names and their pairwise distinctness
/// available; every name has a different length.
pub proof fn reveal_function_names()
    ensures
        "address"@.len() == 7,
        "minted"@.len() == 6,
        "mintingCost"@.len() == 11,
        "balanceOf"@.len() == 9,
        "owned"@.len() == 5,
        "mintERC721"@.len() == 10,
        "transfer"@.len() == 8,
        "mint"@.len() == 4,
{
    reveal_strlit("address");
    reveal_strlit("minted");
    reveal_strlit("mintingCost");
    reveal_strlit("balanceOf");
    reveal_strlit("owned");
    reveal_strlit("mintERC721");
    reveal_strlit("transfer");
    reveal_strlit("mint");
}

/// Validates the calldata shape for a function of the token contract.
/// Succeeds exactly on the supported name/arity combinations; any other
/// combination fails with `UnsupportedFunction` carrying the name.
pub fn validate_purse_calldata(func: &str, calldata: &Option<Vec<String>>) -> (r: Result<
    (),
    ValidationError,
>)
    ensures
        r is Ok <==> valid_calldata_shape(func@, calldata.deep_view()),
        (match r {
            Ok(_) => true,
            Err(e) => match e {
                ValidationError::UnsupportedFunction { name } => name@ == func@,
            },
        }),
{
    let is_zero_arg = str_eq(func, "address") || str_eq(func, "minted") || str_eq(
        func,
        "mintingCost",
    );
    let is_one_arg = str_eq(func, "balanceOf") || str_eq(func, "owned") || str_eq(
        func,
        "mintERC721",
    );
    let is_two_arg = str_eq(func, "transfer") || str_eq(func, "mint");
    match calldata {
        None => {
            if is_zero_arg {
                Ok(())
            } else {
                Err(ValidationError::UnsupportedFunction { name: func.to_owned() })
            }
        },
        Some(data) => {
            proof {
                assert(calldata.deep_view() matches Some(args) && args == data.deep_view());
                assert(data.deep_view().len() == data@.len());
            }
            let n = data.len();
            if (is_one_arg && n == 1) || (is_two_arg && n == 2) {
                Ok(())
            } else {
                Err(ValidationError::UnsupportedFunction { name: func.to_owned() })
            }
        },
    }
}

/// A name outside the supported set never validates, whatever the calldata.
pub proof fn lemma_unsupported_never_validates(f: Seq<char>, cd: Option<Seq<Seq<char>>>)
    requires
        !supported_function(f),
    ensures
        !valid_calldata_shape(f, cd),
{
}

/// A two-argument function validates exactly when calldata is present with
/// exactly two elements.
pub proof fn lemma_two_arg_validates(f: Seq<char>, cd: Option<Seq<Seq<char>>>)
    requires
        two_arg_function(f),
    ensures
        valid_calldata_shape(f, cd) <==> (cd matches Some(args) && args.len() == 2),
{
    reveal_function_names();
}

/// A zero-argument function validates exactly when calldata is absent; an
/// empty but present list does not validate.
pub proof fn lemma_zero_arg_validates(f: Seq<char>, cd: Option<Seq<Seq<char>>>)
    requires
        zero_arg_function(f),
    ensures
        valid_calldata_shape(f, cd) <==> cd is None,
{
    reveal_function_names();
}

/// Splits the calldata of a calldata-taking function into up to seven
/// positional values; functions outside that set yield all `None`.
pub fn destruct_purse_calldata(func: &str, calldata: &Vec<String>) -> (r: (
    Option<String>,
    Option<String>,
    Option<String>,
    Option<String>,
    Option<String>,
    Option<String>,
    Option<String>,
))
    requires
        one_arg_function(func@) ==> calldata@.len() >= 1,
        two_arg_function(func@) ==> calldata@.len() >= 2,
    ensures
        r.2 is None && r.3 is None && r.4 is None && r.5 is None && r.6 is None,
        one_arg_function(func@) ==> (r.0 matches Some(v) && v@ == calldata.deep_view()[0])
            && r.1 is None,
        two_arg_function(func@) ==> (r.0 matches Some(v) && v@ == calldata.deep_view()[0]) && (
        r.1 matches Some(v) && v@ == calldata.deep_view()[1]),
        !(one_arg_function(func@) || two_arg_function(func@)) ==> r.0 is None && r.1 is None,
{
    let is_one_arg = str_eq(func, "balanceOf") || str_eq(func, "owned") || str_eq(
        func,
        "mintERC721",
    );
    let is_two_arg = str_eq(func, "transfer") || str_eq(func, "mint");
    proof {
        reveal_function_names();
    }
    if is_one_arg {
        let val = calldata[0].clone();
        (Some(val), None, None, None, None, None, None)
    } else if is_two_arg {
        let val1 = calldata[0].clone();
        let val2 = calldata[1].clone();
        (Some(val1), Some(val2), None, None, None, None, None)
    } else {
        (None, None, None, None, None, None, None)
    }
}

/// The recipient address and amount of the single transfer and mint related
/// functions. `mintERC721` has no on-chain recipient argument, so its
/// recipient is the zero address and its amount is the first calldata
/// element; `transfer` and `mint` read recipient then amount; every other
/// function yields the zero address and a zero amount.
pub fn transfer_or_mint_recipient_n_calldata(func: &str, calldata: &Vec<String>) -> (r: Result<
    (Address, U256),
    DecodeError,
>)
    requires
        func@ == "mintERC721"@ ==> calldata@.len() >= 1,
        two_arg_function(func@) ==> calldata@.len() >= 2,
    ensures
        func@ == "mintERC721"@ ==> (match r {
            Ok((a, v)) => parses_as_amount(calldata.deep_view()[0]) && a@ == zero_addr_bytes()
                && v@ == dec_val(calldata.deep_view()[0]),
            Err(e) => !parses_as_amount(calldata.deep_view()[0]) && (match e {
                DecodeError::MalformedArgument { position, raw } => position == 0 && raw@
                    == calldata.deep_view()[0],
            }),
        }),
        two_arg_function(func@) ==> (match r {
            Ok((a, v)) => valid_address_str(calldata.deep_view()[0]) && parses_as_amount(
                calldata.deep_view()[1],
            ) && a@ == addr_bytes_of(calldata.deep_view()[0]) && v@ == dec_val(
                calldata.deep_view()[1],
            ),
            Err(e) => match e {
                DecodeError::MalformedArgument { position, raw } => {
                    if valid_address_str(calldata.deep_view()[0]) {
                        !parses_as_amount(calldata.deep_view()[1]) && position == 1 && raw@
                            == calldata.deep_view()[1]
                    } else {
                        position == 0 && raw@ == calldata.deep_view()[0]
                    }
                },
            },
        }),
        !(func@ == "mintERC721"@ || two_arg_function(func@)) ==> (match r {
            Ok((a, v)) => a@ == zero_addr_bytes() && v@ == 0,
            Err(_) => false,
        }),
{
    proof {
        reveal_function_names();
    }
    if str_eq(func, "mintERC721") {
        let raw = &calldata[0];
        match U256::from_dec_str(raw.as_str()) {
            Some(amount) => Ok((Address::zero(), amount)),
            None => Err(
                DecodeError::MalformedArgument { position: 0, raw: raw.clone() },
            ),
        }
    } else if str_eq(func, "transfer") || str_eq(func, "mint") {
        let raw_addr = &calldata[0];
        match Address::from_hex_str(raw_addr.as_str()) {
            Some(recipient) => {
                let raw_amount = &calldata[1];
                match U256::from_dec_str(raw_amount.as_str()) {
                    Some(amount) => Ok((recipient, amount)),
                    None => Err(
                        DecodeError::MalformedArgument { position: 1, raw: raw_amount.clone() },
                    ),
                }
            },
            None => Err(
                DecodeError::MalformedArgument { position: 0, raw: raw_addr.clone() },
            ),
        }
    } else {
        Ok((Address::zero(), U256::zero()))
    }
}

} // verus!
