//! Cross-checks against the crates the original tooling around this
//! library leans on: the csv writer/reader and BigDecimal division.

use bigdecimal::{BigDecimal, FromPrimitive};
use contract_interfacer::csvfmt::{encode_csv_row, parse_csv};
use contract_interfacer::units::str_wei_to_eth;
use std::str::FromStr;

fn bigdecimal_wei_to_eth(wei: &str) -> String {
    let wei_bd = BigDecimal::from_str(wei).unwrap();
    let eth_per_wei_bd = BigDecimal::from_i64(1_000_000_000_000_000_000).unwrap();
    let eth_bd = wei_bd / eth_per_wei_bd;
    eth_bd.to_plain_string()
}

#[test]
fn eth_conversion_matches_bigdecimal() {
    for wei in [
        "0",
        "1",
        "10",
        "21",
        "123456789",
        "1000000000000000000",
        "1500000000000000000",
        "10000000000000000000",
        "999999999999999999999999",
        "123000000000000000000",
    ] {
        assert_eq!(str_wei_to_eth(wei), bigdecimal_wei_to_eth(wei), "wei = {}", wei);
    }
}

#[test]
fn encoded_rows_read_back_identically_through_the_csv_crate() {
    let fields = vec![
        "plain".to_string(),
        "with,comma".to_string(),
        "with \"quote\"".to_string(),
        "".to_string(),
        "{\"transactionHash\":\"0xabc\",\"gasUsed\":\"0x5208\"}".to_string(),
    ];
    let line = encode_csv_row(&fields);
    let mut reader = csv::ReaderBuilder::new()
        .has_headers(false)
        .from_reader(line.as_bytes());
    let mut rows = Vec::new();
    for record in reader.records() {
        let record = record.unwrap();
        let mut row = Vec::new();
        for field in record.iter() {
            row.push(field.to_string());
        }
        rows.push(row);
    }
    assert_eq!(rows, vec![fields]);
}

#[test]
fn csv_crate_output_parses_back_through_the_verified_reader() {
    let fields = vec![
        "a".to_string(),
        "b,c plain".to_string(),
        "c \"x\"".to_string(),
        "d".to_string(),
    ];
    let mut writer = csv::WriterBuilder::new().from_writer(Vec::new());
    writer.write_record(&fields).unwrap();
    let bytes = writer.into_inner().unwrap();
    let text = String::from_utf8(bytes).unwrap();
    let rows = parse_csv(&text).unwrap();
    assert_eq!(rows, vec![fields]);
}
