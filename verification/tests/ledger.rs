use contract_interfacer::address::Address;
use contract_interfacer::csvfmt::{encode_csv_row, encode_field_str, parse_csv};
use contract_interfacer::errors::LedgerError;
use contract_interfacer::ledger::{
    ledger_header, next_derivation, read_from_csv, resolve_derivation, write_to_csv,
};
use contract_interfacer::u256::U256;

fn sender() -> Address {
    Address::from_hex_str("0x1111111111111111111111111111111111111111").unwrap()
}

fn recipient() -> Address {
    Address::from_hex_str("0x2222222222222222222222222222222222222222").unwrap()
}

fn u(s: &str) -> U256 {
    U256::from_dec_str(s).unwrap()
}

fn append_row(existing: &Option<String>, derivation: u32) -> String {
    write_to_csv(
        existing,
        "0xhash",
        "1",
        "21000",
        "0.000021",
        "{\"transactionHash\":\"0xhash\"}",
        "transfer",
        derivation,
        &sender(),
        Some(u("1500000000000000000")),
        Some(u("499979000000000000")),
        None,
        None,
        &recipient(),
        None,
        None,
        None,
        None,
        Some(u("0")),
        Some(u("1000000000000000000")),
        Some(vec![u("1"), u("2"), u("3")]),
    )
    .unwrap()
}

fn header_line() -> String {
    encode_csv_row(&ledger_header())
}

#[test]
fn csv_field_quoting_round_trip() {
    assert_eq!(encode_field_str("plain"), "plain");
    assert_eq!(encode_field_str("a,b"), "\"a,b\"");
    assert_eq!(encode_field_str("say \"hi\""), "\"say \"\"hi\"\"\"");
    assert_eq!(encode_field_str("line\nbreak"), "\"line\nbreak\"");
    let fields = vec![
        "plain".to_string(),
        "with,comma".to_string(),
        "with \"quote\"".to_string(),
        "".to_string(),
        "multi\nline".to_string(),
    ];
    let line = encode_csv_row(&fields);
    let rows = parse_csv(&line).unwrap();
    assert_eq!(rows, vec![fields]);
}

#[test]
fn csv_parse_rejects_malformed_text() {
    assert!(parse_csv("unterminated \"quote\n").is_none());
    assert!(parse_csv("no newline at end").is_none());
    assert!(parse_csv("stray\"quote\n").is_none());
}

#[test]
fn fresh_append_writes_header_then_row() {
    let out = append_row(&None, 7);
    assert!(out.starts_with(&header_line()));
    let records = read_from_csv(&out).unwrap();
    assert_eq!(records.len(), 1);
    assert_eq!(records[0].derivation, 7);
}

#[test]
fn append_round_trip_preserves_every_field() {
    let out = append_row(&None, 7);
    let records = read_from_csv(&out).unwrap();
    let rec = &records[0];
    assert_eq!(rec.transaction_hash, "0xhash");
    assert_eq!(rec.derivation, 7);
    assert_eq!(rec.sender, "0x1111111111111111111111111111111111111111");
    assert_eq!(rec.sender_balance_before_eth, "1.5");
    assert_eq!(rec.sender_balance_after_eth, "0.499979");
    assert_eq!(rec.sender_balance_before_erc20, "0");
    assert_eq!(rec.sender_balance_after_erc20, "0");
    assert_eq!(rec.recipient, "0x2222222222222222222222222222222222222222");
    assert_eq!(rec.recipient_balance_before_eth, "0");
    assert_eq!(rec.recipient_balance_after_eth, "0");
    assert_eq!(rec.recipient_balance_before_erc20, "0");
    assert_eq!(rec.recipient_balance_after_erc20, "0");
    assert_eq!(rec.function, "transfer");
    assert_eq!(rec.msg_value, "0");
    assert_eq!(rec.calldata_value, "1");
    assert_eq!(rec.msg_sender_owned_token_ids, "1,2,3");
    assert_eq!(rec.tx_fee, "0.000021");
    assert_eq!(rec.gas_price, "1");
    assert_eq!(rec.gas_used, "21000");
    assert_eq!(rec.receipt_json, "{\"transactionHash\":\"0xhash\"}");
}

#[test]
fn resolve_derivation_returns_one_past_the_maximum() {
    let mut doc = append_row(&None, 3);
    for d in [1, 7, 2] {
        doc = append_row(&Some(doc), d);
    }
    let records = read_from_csv(&doc).unwrap();
    assert_eq!(records.len(), 4);
    assert_eq!(next_derivation(&records).unwrap(), 8);
    assert_eq!(resolve_derivation(&Some(doc)).unwrap(), 8);
}

#[test]
fn resolve_derivation_rejects_header_only_ledger() {
    let doc = header_line();
    assert_eq!(
        resolve_derivation(&Some(doc)).unwrap_err(),
        LedgerError::EmptyLedger
    );
}

#[test]
fn resolve_derivation_of_absent_ledger_is_zero() {
    assert_eq!(resolve_derivation(&None).unwrap(), 0);
}

#[test]
fn resolve_derivation_rejects_empty_content() {
    assert_eq!(
        resolve_derivation(&Some(String::new())).unwrap_err(),
        LedgerError::EmptyLedger
    );
}

#[test]
fn append_rejects_reordered_or_extra_columns() {
    let mut reordered = ledger_header();
    reordered.swap(0, 1);
    let bad_doc = encode_csv_row(&reordered);
    let before = bad_doc.clone();
    let r = write_to_csv(
        &Some(bad_doc.clone()),
        "0xhash",
        "1",
        "21000",
        "0.000021",
        "{}",
        "transfer",
        1,
        &sender(),
        None,
        None,
        None,
        None,
        &recipient(),
        None,
        None,
        None,
        None,
        None,
        None,
        None,
    );
    assert_eq!(r.unwrap_err(), LedgerError::SchemaMismatch);
    assert_eq!(bad_doc, before);

    let mut extra = ledger_header();
    extra.push("Extra".to_string());
    let bad_doc = encode_csv_row(&extra);
    let r = write_to_csv(
        &Some(bad_doc),
        "0xhash",
        "1",
        "21000",
        "0.000021",
        "{}",
        "transfer",
        1,
        &sender(),
        None,
        None,
        None,
        None,
        &recipient(),
        None,
        None,
        None,
        None,
        None,
        None,
        None,
    );
    assert_eq!(r.unwrap_err(), LedgerError::SchemaMismatch);
}

#[test]
fn append_preserves_existing_rows() {
    let first = append_row(&None, 0);
    let second = append_row(&Some(first.clone()), 2);
    assert!(second.starts_with(&first));
    let records = read_from_csv(&second).unwrap();
    assert_eq!(records.len(), 2);
    assert_eq!(records[0].derivation, 0);
    assert_eq!(records[1].derivation, 2);
}

#[test]
fn read_rejects_wrong_header_and_corrupt_rows() {
    let doc = "Not,The,Header\n";
    assert_eq!(read_from_csv(doc).unwrap_err(), LedgerError::SchemaMismatch);
    let mut doc = header_line();
    doc.push_str("only,three,fields\n");
    assert_eq!(read_from_csv(&doc).unwrap_err(), LedgerError::IoFailure);
    assert_eq!(read_from_csv("broken \"csv\n").unwrap_err(), LedgerError::IoFailure);
    assert_eq!(read_from_csv("").unwrap().len(), 0);
}
