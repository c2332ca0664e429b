use contract_interfacer::address::{to_address_type, Address};
use contract_interfacer::u256::{parse_u256, to_u256, U256};
use contract_interfacer::units::{str_wei_to_eth, str_wei_to_gwei};

#[test]
fn u256_parses_and_renders_canonically() {
    let v = U256::from_dec_str("1000000000000000000").unwrap();
    assert_eq!(v.to_dec_string(), "1000000000000000000");
    let v = U256::from_dec_str("000123").unwrap();
    assert_eq!(v.to_dec_string(), "123");
    let v = U256::from_dec_str("0").unwrap();
    assert_eq!(v.to_dec_string(), "0");
    let v = U256::from_dec_str("").unwrap();
    assert_eq!(v.to_dec_string(), "0");
}

#[test]
fn u256_accepts_the_maximum_and_rejects_beyond() {
    let max =
        "115792089237316195423570985008687907853269984665640564039457584007913129639935";
    let v = U256::from_dec_str(max).unwrap();
    assert_eq!(v.to_dec_string(), max);
    let over =
        "115792089237316195423570985008687907853269984665640564039457584007913129639936";
    assert!(U256::from_dec_str(over).is_none());
    let way_over = "99999999999999999999999999999999999999999999999999999999999999999999999999999999";
    assert!(U256::from_dec_str(way_over).is_none());
}

#[test]
fn u256_rejects_non_digits() {
    assert!(U256::from_dec_str("12x").is_none());
    assert!(U256::from_dec_str("-1").is_none());
    assert!(U256::from_dec_str("1.5").is_none());
    assert!(U256::from_dec_str("0x10").is_none());
    assert!(parse_u256(" 7").is_err());
    assert_eq!(parse_u256("42").unwrap(), U256::from_dec_str("42").unwrap());
}

#[test]
fn u128_conversion_round_trips() {
    assert_eq!(to_u256(0).to_dec_string(), "0");
    assert_eq!(to_u256(10).to_dec_string(), "10");
    assert_eq!(
        to_u256(340282366920938463463374607431768211455).to_dec_string(),
        "340282366920938463463374607431768211455"
    );
}

#[test]
fn address_parse_accepts_both_cases_and_optional_prefix() {
    let mixed = Address::from_hex_str("0xdF7eD90AC34a1492fD0240ea385bab6872a96527").unwrap();
    let lower = Address::from_hex_str("0xdf7ed90ac34a1492fd0240ea385bab6872a96527").unwrap();
    let bare = Address::from_hex_str("df7ed90ac34a1492fd0240ea385bab6872a96527").unwrap();
    assert_eq!(mixed, lower);
    assert_eq!(mixed, bare);
    assert_eq!(
        mixed.to_hex_string(),
        "0xdf7ed90ac34a1492fd0240ea385bab6872a96527"
    );
}

#[test]
fn address_parse_rejects_bad_input() {
    assert!(Address::from_hex_str("").is_none());
    assert!(Address::from_hex_str("0x").is_none());
    assert!(Address::from_hex_str("aaabbbccc").is_none());
    assert!(Address::from_hex_str("0xdf7ed90ac34a1492fd0240ea385bab6872a9652").is_none());
    assert!(Address::from_hex_str("0xdf7ed90ac34a1492fd0240ea385bab6872a965271").is_none());
    assert!(Address::from_hex_str("0xgf7ed90ac34a1492fd0240ea385bab6872a96527").is_none());
    assert!(to_address_type("not an address").is_none());
    let a = to_address_type("0xdF7eD90AC34a1492fD0240ea385bab6872a96527").unwrap();
    assert_eq!(a.to_hex_string(), "0xdf7ed90ac34a1492fd0240ea385bab6872a96527");
}

#[test]
fn zero_address_renders_all_zeroes() {
    assert_eq!(
        Address::zero().to_hex_string(),
        "0x0000000000000000000000000000000000000000"
    );
}

#[test]
fn wei_to_eth_shifts_eighteen_places_exactly() {
    assert_eq!(str_wei_to_eth("0"), "0");
    assert_eq!(str_wei_to_eth("1"), "0.000000000000000001");
    assert_eq!(str_wei_to_eth("10"), "0.00000000000000001");
    assert_eq!(str_wei_to_eth("1000000000000000000"), "1");
    assert_eq!(str_wei_to_eth("1500000000000000000"), "1.5");
    assert_eq!(str_wei_to_eth("10000000000000000000"), "10");
    assert_eq!(str_wei_to_eth("123456789"), "0.000000000123456789");
    assert_eq!(
        str_wei_to_eth("999999999999999999999999"),
        "999999.999999999999999999"
    );
}

#[test]
fn wei_to_gwei_shifts_nine_places_exactly() {
    assert_eq!(str_wei_to_gwei("0"), "0");
    assert_eq!(str_wei_to_gwei("1000000000"), "1");
    assert_eq!(str_wei_to_gwei("1500000000"), "1.5");
    assert_eq!(str_wei_to_gwei("21"), "0.000000021");
}
