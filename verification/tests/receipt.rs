use contract_interfacer::errors::ExecutionError;
use contract_interfacer::executor::{Purse404Executor, Purse404Results};
use contract_interfacer::receipt::{calc_tx_fee, get_gas_price, get_gas_used, get_tx_hash};

const RECEIPT: &str = "{\"transactionHash\":\"0xabc123\",\"gasUsed\":\"0x5208\",\"effectiveGasPrice\":\"0x3b9aca00\",\"status\":\"0x1\"}";

#[test]
fn tx_hash_is_extracted() {
    assert_eq!(get_tx_hash(RECEIPT).unwrap(), "0xabc123");
}

#[test]
fn gas_used_is_decoded_to_decimal() {
    assert_eq!(get_gas_used(RECEIPT).unwrap(), "21000");
}

#[test]
fn gas_price_is_rendered_in_gwei() {
    assert_eq!(get_gas_price(RECEIPT).unwrap(), "1");
    let half = "{\"effectiveGasPrice\":\"0x59682f00\"}";
    assert_eq!(get_gas_price(half).unwrap(), "1.5");
}

#[test]
fn tx_fee_is_the_exact_product_in_eth() {
    assert_eq!(calc_tx_fee(RECEIPT).unwrap(), "0.000021");
}

#[test]
fn summarize_receipt_bundles_the_state_change_result() {
    let r = Purse404Executor::summarize_receipt(RECEIPT).unwrap();
    match r {
        Purse404Results::StateChangeResult((hash, price, used, fee, doc)) => {
            assert_eq!(hash, "0xabc123");
            assert_eq!(price, "1");
            assert_eq!(used, "21000");
            assert_eq!(fee, "0.000021");
            assert_eq!(doc, RECEIPT);
        },
        _ => panic!("expected a state-change result"),
    }
}

#[test]
fn missing_fields_are_reported_by_name() {
    let no_hash = "{\"gasUsed\":\"0x1\",\"effectiveGasPrice\":\"0x1\"}";
    assert_eq!(
        get_tx_hash(no_hash).unwrap_err(),
        ExecutionError::MalformedReceipt { field: "transactionHash".to_string() }
    );
    let no_used = "{\"transactionHash\":\"0x1\",\"effectiveGasPrice\":\"0x1\"}";
    assert_eq!(
        get_gas_used(no_used).unwrap_err(),
        ExecutionError::MalformedReceipt { field: "gasUsed".to_string() }
    );
    assert_eq!(
        calc_tx_fee(no_used).unwrap_err(),
        ExecutionError::MalformedReceipt { field: "gasUsed".to_string() }
    );
}

#[test]
fn non_string_or_bad_hex_fields_fail() {
    let numeric = "{\"gasUsed\":21000}";
    assert!(get_gas_used(numeric).is_err());
    let bad_hex = "{\"gasUsed\":\"0xzz\"}";
    assert!(get_gas_used(bad_hex).is_err());
    let empty_hex = "{\"gasUsed\":\"0x\"}";
    assert!(get_gas_used(empty_hex).is_err());
    assert!(get_tx_hash("not json at all").is_err());
}
