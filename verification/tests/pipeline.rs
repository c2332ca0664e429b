use contract_interfacer::address::Address;
use contract_interfacer::errors::{ChainSelectionError, PipelineError, ValidationError};
use contract_interfacer::executor::{Purse404FunctionCall, Purse404Results};
use contract_interfacer::ledger::read_from_csv;
use contract_interfacer::pipeline::{
    build_call, check_chain, choose_derivation, finish_run, resolve_run, ContractCliArgs,
};
use contract_interfacer::u256::U256;
use contract_interfacer::wallet::Wallet;

fn args(function: &str, calldata: Option<Vec<String>>, derivation: u32, chain: u32)
    -> ContractCliArgs {
    ContractCliArgs {
        derivation_number: derivation,
        function: function.to_string(),
        calldata,
        msg_value: U256::zero(),
        chain_id: chain,
        file_path: "test.csv".to_string(),
    }
}

fn wallet() -> Wallet {
    Wallet::new(Address::from_hex_str("0x1111111111111111111111111111111111111111").unwrap())
}

fn ledger_with_rows(derivations: &[u32]) -> String {
    let mut doc: Option<String> = None;
    for d in derivations {
        let out = contract_interfacer::ledger::write_to_csv(
            &doc,
            "0xhash",
            "1",
            "21000",
            "0.000021",
            "{}",
            "transfer",
            *d,
            &Address::zero(),
            None,
            None,
            None,
            None,
            &Address::zero(),
            None,
            None,
            None,
            None,
            None,
            None,
            None,
        )
        .unwrap();
        doc = Some(out);
    }
    doc.unwrap()
}

#[test]
fn check_chain_recognizes_mainnet_and_sepolia() {
    assert!(check_chain(1).is_ok());
    assert!(check_chain(11155111).is_ok());
    assert_eq!(
        check_chain(5).unwrap_err(),
        ChainSelectionError::UnsupportedChain { chain_id: 5 }
    );
}

#[test]
fn read_only_run_performs_zero_ledger_writes() {
    let a = args("minted", None, 0, 11155111);
    let plan = resolve_run(&a, &None).unwrap();
    assert_eq!(plan.derivation_number, 0);
    assert_eq!(plan.chain_id, 11155111);
    let (call, recipient, amount) = build_call(&a, wallet()).unwrap();
    assert!(matches!(call, Purse404FunctionCall::Minted));
    assert!(!call.is_state_change());
    assert_eq!(recipient, Address::zero());
    assert_eq!(amount, U256::zero());
    let result = Purse404Results::U256Result(U256::from_dec_str("5").unwrap());
    let written = finish_run(
        &None,
        &result,
        "minted",
        plan.derivation_number,
        &Address::zero(),
        None,
        None,
        None,
        None,
        &Address::zero(),
        None,
        None,
        None,
        None,
        None,
        None,
        None,
    )
    .unwrap();
    assert!(written.is_none());
}

#[test]
fn sentinel_derivation_takes_the_ledger_suggestion() {
    let doc = ledger_with_rows(&[0, 2]);
    let a = args("minted", None, 0, 1);
    let plan = resolve_run(&a, &Some(doc.clone())).unwrap();
    assert_eq!(plan.derivation_number, 3);
    let a = args("minted", None, 5, 1);
    let plan = resolve_run(&a, &Some(doc)).unwrap();
    assert_eq!(plan.derivation_number, 5);
    assert_eq!(choose_derivation(3, 0), 3);
    assert_eq!(choose_derivation(3, 5), 5);
}

#[test]
fn unsupported_chain_aborts_after_resolution() {
    let a = args("minted", None, 0, 777);
    let e = resolve_run(&a, &None).unwrap_err();
    assert_eq!(
        e,
        PipelineError::Chain(ChainSelectionError::UnsupportedChain { chain_id: 777 })
    );
}

#[test]
fn invalid_calldata_shape_aborts_the_build() {
    let a = args("minted", Some(vec![]), 0, 1);
    let e = build_call(&a, wallet()).unwrap_err();
    assert_eq!(
        e,
        PipelineError::Validation(ValidationError::UnsupportedFunction {
            name: "minted".to_string()
        })
    );
}

#[test]
fn state_change_run_appends_exactly_one_row() {
    let a = args(
        "transfer",
        Some(vec![
            "0xdF7eD90AC34a1492fD0240ea385bab6872a96527".to_string(),
            "1000000000000000000".to_string(),
        ]),
        0,
        11155111,
    );
    let (call, recipient, amount) = build_call(&a, wallet()).unwrap();
    assert!(call.is_state_change());
    assert_eq!(amount, U256::from_dec_str("1000000000000000000").unwrap());
    let result = Purse404Results::StateChangeResult((
        "0xhash".to_string(),
        "1".to_string(),
        "21000".to_string(),
        "0.000021".to_string(),
        "{\"status\":\"0x1\"}".to_string(),
    ));
    let written = finish_run(
        &None,
        &result,
        "transfer",
        4,
        &wallet().address(),
        Some(U256::from_dec_str("2000000000000000000").unwrap()),
        Some(U256::from_dec_str("999979000000000000").unwrap()),
        None,
        None,
        &recipient,
        None,
        None,
        None,
        None,
        Some(U256::zero()),
        Some(amount),
        None,
    )
    .unwrap()
    .unwrap();
    let records = read_from_csv(&written).unwrap();
    assert_eq!(records.len(), 1);
    assert_eq!(records[0].derivation, 4);
    assert_eq!(records[0].function, "transfer");
    assert_eq!(records[0].calldata_value, "1");
    assert_eq!(
        records[0].recipient,
        "0xdf7ed90ac34a1492fd0240ea385bab6872a96527"
    );
}
