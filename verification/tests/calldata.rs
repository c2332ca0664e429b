use contract_interfacer::address::Address;
use contract_interfacer::calldata::{
    destruct_purse_calldata, transfer_or_mint_recipient_n_calldata, validate_purse_calldata,
};
use contract_interfacer::errors::{DecodeError, ValidationError};
use contract_interfacer::executor::{map_error_sig, Purse404FunctionCall};
use contract_interfacer::u256::U256;
use contract_interfacer::wallet::Wallet;

fn strings(items: &[&str]) -> Vec<String> {
    let mut v = Vec::new();
    for s in items {
        v.push(s.to_string());
    }
    v
}

#[test]
fn validate_unsupported_names_always_fail() {
    let shapes: Vec<Option<Vec<String>>> = vec![
        None,
        Some(strings(&[])),
        Some(strings(&["1"])),
        Some(strings(&["1", "2"])),
        Some(strings(&["1", "2", "3"])),
    ];
    for name in ["burn", "approve", "Transfer", "MINT", "", "address "] {
        for shape in &shapes {
            let r = validate_purse_calldata(name, shape);
            match r {
                Err(ValidationError::UnsupportedFunction { name: n }) => assert_eq!(n, name),
                Ok(_) => panic!("accepted unsupported function"),
            }
        }
    }
}

#[test]
fn validate_two_arg_functions_need_exactly_two() {
    for name in ["transfer", "mint"] {
        assert!(validate_purse_calldata(name, &None).is_err());
        assert!(validate_purse_calldata(name, &Some(strings(&[]))).is_err());
        assert!(validate_purse_calldata(name, &Some(strings(&["a"]))).is_err());
        assert!(validate_purse_calldata(name, &Some(strings(&["a", "b"]))).is_ok());
        assert!(validate_purse_calldata(name, &Some(strings(&["a", "b", "c"]))).is_err());
    }
}

#[test]
fn validate_zero_arg_functions_need_absent_calldata() {
    for name in ["address", "minted", "mintingCost"] {
        assert!(validate_purse_calldata(name, &None).is_ok());
        assert!(validate_purse_calldata(name, &Some(strings(&[]))).is_err());
        assert!(validate_purse_calldata(name, &Some(strings(&["x"]))).is_err());
    }
}

#[test]
fn validate_one_arg_functions_need_exactly_one() {
    for name in ["balanceOf", "owned", "mintERC721"] {
        assert!(validate_purse_calldata(name, &None).is_err());
        assert!(validate_purse_calldata(name, &Some(strings(&[]))).is_err());
        assert!(validate_purse_calldata(name, &Some(strings(&["a"]))).is_ok());
        assert!(validate_purse_calldata(name, &Some(strings(&["a", "b"]))).is_err());
    }
}

#[test]
fn destruct_splits_by_arity() {
    let one = strings(&["alpha"]);
    let two = strings(&["alpha", "beta"]);
    let r = destruct_purse_calldata("balanceOf", &one);
    assert_eq!(r.0.as_deref(), Some("alpha"));
    assert!(r.1.is_none() && r.2.is_none() && r.3.is_none());
    let r = destruct_purse_calldata("transfer", &two);
    assert_eq!(r.0.as_deref(), Some("alpha"));
    assert_eq!(r.1.as_deref(), Some("beta"));
    assert!(r.2.is_none() && r.6.is_none());
    let r = destruct_purse_calldata("minted", &two);
    assert!(r.0.is_none() && r.1.is_none());
}

#[test]
fn extract_transfer_recipient_and_amount() {
    let cd = strings(&["0xdF7eD90AC34a1492fD0240ea385bab6872a96527", "1000000000000000000"]);
    let (recipient, amount) = transfer_or_mint_recipient_n_calldata("transfer", &cd).unwrap();
    let expected = Address::from_hex_str("0xdf7ed90ac34a1492fd0240ea385bab6872a96527").unwrap();
    assert_eq!(recipient, expected);
    assert_eq!(amount, U256::from_dec_str("1000000000000000000").unwrap());
    assert_eq!(amount.to_dec_string(), "1000000000000000000");
}

#[test]
fn extract_mint_erc721_uses_zero_recipient() {
    let cd = strings(&["3"]);
    let (recipient, amount) = transfer_or_mint_recipient_n_calldata("mintERC721", &cd).unwrap();
    assert_eq!(recipient, Address::zero());
    assert_eq!(amount, U256::from_dec_str("3").unwrap());
}

#[test]
fn extract_other_functions_yield_zeroes() {
    let cd = strings(&["whatever"]);
    let (recipient, amount) = transfer_or_mint_recipient_n_calldata("balanceOf", &cd).unwrap();
    assert_eq!(recipient, Address::zero());
    assert_eq!(amount, U256::zero());
}

#[test]
fn extract_reports_malformed_address_position() {
    let cd = strings(&["aaabbbccc", "5"]);
    let e = transfer_or_mint_recipient_n_calldata("transfer", &cd).unwrap_err();
    assert_eq!(
        e,
        DecodeError::MalformedArgument { position: 0, raw: "aaabbbccc".to_string() }
    );
}

#[test]
fn extract_reports_malformed_amount_position() {
    let cd = strings(&["0xdF7eD90AC34a1492fD0240ea385bab6872a96527", "12x"]);
    let e = transfer_or_mint_recipient_n_calldata("mint", &cd).unwrap_err();
    assert_eq!(e, DecodeError::MalformedArgument { position: 1, raw: "12x".to_string() });
}

#[test]
fn from_data_builds_each_variant() {
    let addr = "0xdF7eD90AC34a1492fD0240ea385bab6872a96527";
    let wallet = || Wallet::new(Address::from_hex_str(addr).unwrap());
    let value = || U256::from_dec_str("5").unwrap();
    let c = Purse404FunctionCall::from_data("address", &value(), strings(&[]), wallet()).unwrap();
    assert!(matches!(c, Purse404FunctionCall::Address));
    let c = Purse404FunctionCall::from_data("minted", &value(), strings(&[]), wallet()).unwrap();
    assert!(matches!(c, Purse404FunctionCall::Minted));
    let c =
        Purse404FunctionCall::from_data("mintingCost", &value(), strings(&[]), wallet()).unwrap();
    assert!(matches!(c, Purse404FunctionCall::MintingCost));
    let c = Purse404FunctionCall::from_data("balanceOf", &value(), strings(&[addr]), wallet())
        .unwrap();
    assert!(matches!(c, Purse404FunctionCall::BalanceOf(_)));
    let c = Purse404FunctionCall::from_data("owned", &value(), strings(&[addr]), wallet())
        .unwrap();
    assert!(matches!(c, Purse404FunctionCall::Owned(_)));
    let c = Purse404FunctionCall::from_data(
        "transfer",
        &value(),
        strings(&[addr, "700"]),
        wallet(),
    )
    .unwrap();
    match c {
        Purse404FunctionCall::Transfer(_, to, amount) => {
            assert_eq!(to, Address::from_hex_str(addr).unwrap());
            assert_eq!(amount, U256::from_dec_str("700").unwrap());
        },
        _ => panic!("wrong variant"),
    }
    let c = Purse404FunctionCall::from_data("mintERC721", &value(), strings(&["2"]), wallet())
        .unwrap();
    match c {
        Purse404FunctionCall::MintERC721(_, units, msg_value) => {
            assert_eq!(units, U256::from_dec_str("2").unwrap());
            assert_eq!(msg_value, value());
        },
        _ => panic!("wrong variant"),
    }
    let c = Purse404FunctionCall::from_data("mint", &value(), strings(&[addr, "9"]), wallet())
        .unwrap();
    assert!(matches!(c, Purse404FunctionCall::Mint(_, _, _)));
    assert!(c.is_state_change());
    let e = Purse404FunctionCall::from_data("burn", &value(), strings(&[]), wallet())
        .unwrap_err();
    assert_eq!(
        e,
        contract_interfacer::errors::BuildError::UnsupportedFunction { name: "burn".to_string() }
    );
}

#[test]
fn state_change_classification() {
    let addr = Address::from_hex_str("0xdF7eD90AC34a1492fD0240ea385bab6872a96527").unwrap();
    assert!(!Purse404FunctionCall::Address.is_state_change());
    assert!(!Purse404FunctionCall::Minted.is_state_change());
    assert!(!Purse404FunctionCall::MintingCost.is_state_change());
    assert!(!Purse404FunctionCall::BalanceOf(addr).is_state_change());
    let w = Wallet::new(Address::zero());
    let t = Purse404FunctionCall::Transfer(w, Address::zero(), U256::zero());
    assert!(t.is_state_change());
}

#[test]
fn map_error_sig_names_known_reverts() {
    assert_eq!(map_error_sig("0x65c62bb3"), "InsufficientInactiveBalance()");
    assert_eq!(map_error_sig("0xab0a033b"), "IncorrectEthValue()");
    assert_eq!(map_error_sig("0x303b682f"), "MintLimitReached()");
    assert_eq!(map_error_sig("0xdeadbeef"), "0xdeadbeef");
}
