//! Reading the confirmation receipt of a mined transaction: the chain
//! client serializes the receipt to JSON, and the fields the ledger needs
//! are extracted and converted here.

use crate::address::strip_hex_prefix;
use crate::errors::ExecutionError;
use crate::text::{all_hex, dec_str_of, hex_val, parse_hex_u64, u128_to_string};
use crate::units::{shift_decimal_string, shifted_decimal_str};
use vstd::prelude::*;

verus! {

/// What serde_json finds at a top-level key of a JSON document when the
/// document parses and the field holds a JSON string: that field's text.
pub uninterp spec fn json_str_field(doc: Seq<char>, key: Seq<char>) -> Option<Seq<char>>;

/// Relies on serde_json::from_str and serde_json::Value::{get, as_str}:
/// parses the document and hands back the named top-level field when it is
/// a JSON string; `None` when the document does not parse, the field is
/// absent, or the field is not a string.
#[verifier::external_body]
fn json_str_field_of(doc: &str, key: &str) -> (r: Option<String>)
    ensures
        match r {
            Some(v) => json_str_field(doc@, key@) == Some(v@),
            None => json_str_field(doc@, key@) is None,
        },
{
    match serde_json::from_str::<serde_json::Value>(doc) {
        Ok(value) => match value.get(key) {
            Some(field) => field.as_str().map(|s| s.to_string()),
            None => None,
        },
        Err(_) => None,
    }
}

/// A gas quantity as recorded in a receipt: the named field holds a string
/// of hexadecimal digits after an optional "0x", whose value fits 64 bits.
pub open spec fn gas_field_val(doc: Seq<char>, key: Seq<char>) -> Option<nat> {
    match json_str_field(doc, key) {
        Some(s) => {
            let h = strip_hex_prefix(s);
            if h.len() >= 1 && all_hex(h) && hex_val(h) <= u64::MAX {
                Some(hex_val(h))
            } else {
                Option::None
            }
        },
        None => Option::None,
    }
}

/// The transaction hash recorded in the receipt document.
pub fn get_tx_hash(receipt_json: &str) -> (r: Result<String, ExecutionError>)
    ensures
        match r {
            Ok(h) => json_str_field(receipt_json@, "transactionHash"@) == Some(h@),
            Err(e) => json_str_field(receipt_json@, "transactionHash"@) is None && (match e {
                ExecutionError::MalformedReceipt { field } => field@ == "transactionHash"@,
                _ => false,
            }),
        },
{
    match json_str_field_of(receipt_json, "transactionHash") {
        Some(h) => Ok(h),
        None => Err(
            ExecutionError::MalformedReceipt { field: "transactionHash".to_owned() },
        ),
    }
}

/// Parses a receipt gas field into its numeric value.
fn gas_field_of(receipt_json: &str, key: &str) -> (r: Option<u64>)
    ensures
        match r {
            Some(v) => gas_field_val(receipt_json@, key@) == Some(v as nat),
            None => gas_field_val(receipt_json@, key@) is None,
        },
{
    match json_str_field_of(receipt_json, key) {
        Some(raw) => {
            let s = raw.as_str();
            let len = s.unicode_len();
            let start: usize = if len >= 2 && s.get_char(0) == '0' && s.get_char(1) == 'x' {
                2
            } else {
                0
            };
            let hex_part = s.substring_char(start, len);
            proof {
                assert(hex_part@ =~= strip_hex_prefix(s@));
            }
            parse_hex_u64(hex_part)
        },
        None => None,
    }
}

/// The gas used by the transaction, rendered in decimal.
pub fn get_gas_used(receipt_json: &str) -> (r: Result<String, ExecutionError>)
    ensures
        match r {
            Ok(s) => gas_field_val(receipt_json@, "gasUsed"@) matches Some(v) && s@ == dec_str_of(
                v,
            ),
            Err(e) => gas_field_val(receipt_json@, "gasUsed"@) is None && (match e {
                ExecutionError::MalformedReceipt { field } => field@ == "gasUsed"@,
                _ => false,
            }),
        },
{
    match gas_field_of(receipt_json, "gasUsed") {
        Some(v) => Ok(u128_to_string(v as u128)),
        None => Err(ExecutionError::MalformedReceipt { field: "gasUsed".to_owned() }),
    }
}

/// The effective gas price of the transaction, rendered in gwei.
pub fn get_gas_price(receipt_json: &str) -> (r: Result<String, ExecutionError>)
    ensures
        match r {
            Ok(s) => gas_field_val(receipt_json@, "effectiveGasPrice"@) matches Some(v) && s@
                == shifted_decimal_str(dec_str_of(v), 9),
            Err(e) => gas_field_val(receipt_json@, "effectiveGasPrice"@) is None && (match e {
                ExecutionError::MalformedReceipt { field } => field@ == "effectiveGasPrice"@,
                _ => false,
            }),
        },
{
    match gas_field_of(receipt_json, "effectiveGasPrice") {
        Some(v) => {
            let wei = u128_to_string(v as u128);
            proof {
                crate::text::lemma_dec_str_of(v as nat);
            }
            Ok(shift_decimal_string(wei.as_str(), 9))
        },
        None => Err(
            ExecutionError::MalformedReceipt { field: "effectiveGasPrice".to_owned() },
        ),
    }
}

/// The transaction fee in ETH: gas used times effective gas price, in wei,
/// rendered in ETH units.
pub fn calc_tx_fee(receipt_json: &str) -> (r: Result<String, ExecutionError>)
    ensures
        match r {
            Ok(s) => gas_field_val(receipt_json@, "gasUsed"@) matches Some(u) && gas_field_val(
                receipt_json@,
                "effectiveGasPrice"@,
            ) matches Some(p) && s@ == shifted_decimal_str(dec_str_of(u * p), 18),
            Err(e) => (gas_field_val(receipt_json@, "gasUsed"@) is None || gas_field_val(
                receipt_json@,
                "effectiveGasPrice"@,
            ) is None) && (match e {
                ExecutionError::MalformedReceipt { field } => {
                    if gas_field_val(receipt_json@, "gasUsed"@) is None {
                        field@ == "gasUsed"@
                    } else {
                        field@ == "effectiveGasPrice"@
                    }
                },
                _ => false,
            }),
        },
{
    let used = match gas_field_of(receipt_json, "gasUsed") {
        Some(v) => v,
        None => {
            return Err(ExecutionError::MalformedReceipt { field: "gasUsed".to_owned() });
        },
    };
    let price = match gas_field_of(receipt_json, "effectiveGasPrice") {
        Some(v) => v,
        None => {
            return Err(
                ExecutionError::MalformedReceipt { field: "effectiveGasPrice".to_owned() },
            );
        },
    };
    proof {
        let u = used as nat;
        let p = price as nat;
        assert(u * p < 0x100000000000000000000000000000000) by (nonlinear_arith)
            requires
                u < 0x10000000000000000,
                p < 0x10000000000000000,
        ;
    }
    let fee_wei: u128 = used as u128 * price as u128;
    proof {
        crate::text::lemma_dec_str_of(fee_wei as nat);
    }
    let wei = u128_to_string(fee_wei);
    Ok(shift_decimal_string(wei.as_str(), 18))
}

} // verus!
