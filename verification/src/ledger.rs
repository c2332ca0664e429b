//! The CSV audit ledger: its fixed 20-column schema, the read path that
//! validates the schema and recovers the recorded rows, the derivation
//! reconciliation, and the append path that refuses to touch a ledger
//! whose header does not match the schema exactly.

use crate::address::{addr_display, Address};
use crate::csvfmt::{
    encode_csv_row, encode_row, lemma_csv_round_trip, lemma_parse_rows_append, parse_csv,
    parse_csv_first_row, parse_row, parse_rows,
};
use crate::errors::LedgerError;
use crate::text::{all_digits, dec_str_of, dec_val, parse_dec_u32, push_char, str_eq,
    u32_to_string};
use crate::u256::U256;
use crate::units::{shifted_decimal_str, str_wei_to_eth};
use vstd::prelude::*;

verus! {

/// One audit record of a single executed operation, as stored in the
/// ledger. Monetary columns hold decimal ETH-unit strings exactly as
/// written; the derivation index is the one numeric column the pipeline
/// computes with.
#[derive(Debug, PartialEq, Eq)]
pub struct Record {
    pub transaction_hash: String,
    pub derivation: u32,
    pub sender: String,
    pub sender_balance_before_eth: String,
    pub sender_balance_after_eth: String,
    pub sender_balance_before_erc20: String,
    pub sender_balance_after_erc20: String,
    pub recipient: String,
    pub recipient_balance_before_eth: String,
    pub recipient_balance_after_eth: String,
    pub recipient_balance_before_erc20: String,
    pub recipient_balance_after_erc20: String,
    pub function: String,
    pub msg_value: String,
    pub calldata_value: String,
    pub msg_sender_owned_token_ids: String,
    pub tx_fee: String,
    pub gas_price: String,
    pub gas_used: String,
    pub receipt_json: String,
}

/// The fixed header row, in schema order.
pub open spec fn header_fields() -> Seq<Seq<char>> {
    seq![
        "Transaction Hash"@,
        "Derivation"@,
        "Sender"@,
        "Sender Balance Before (ETH)"@,
        "Sender Balance After (ETH)"@,
        "Sender Balance Before (ERC20)"@,
        "Sender Balance After (ERC20)"@,
        "Recipient"@,
        "Recipient Balance Before (ETH)"@,
        "Recipient Balance After (ETH)"@,
        "Recipient Balance Before (ERC20)"@,
        "Recipient Balance After (ERC20)"@,
        "Function"@,
        "Msg Value"@,
        "Calldata Value"@,
        "Msg.sender Owned Token IDs"@,
        "Tx Fee"@,
        "Gas Price"@,
        "Gas Used"@,
        "Receipt JSON"@,
    ]
}

/// A data row the read path accepts: 20 fields whose derivation column is
/// a decimal index that fits the index type.
pub open spec fn row_parses(fs: Seq<Seq<char>>) -> bool {
    &&& fs.len() == 20
    &&& all_digits(fs[1])
    &&& fs[1].len() >= 1
    &&& dec_val(fs[1]) <= u32::MAX
}

/// The record carrying exactly the given row.
pub open spec fn record_matches_row(rec: Record, fs: Seq<Seq<char>>) -> bool {
    &&& fs.len() == 20
    &&& rec.transaction_hash@ == fs[0]
    &&& rec.derivation as nat == dec_val(fs[1])
    &&& rec.sender@ == fs[2]
    &&& rec.sender_balance_before_eth@ == fs[3]
    &&& rec.sender_balance_after_eth@ == fs[4]
    &&& rec.sender_balance_before_erc20@ == fs[5]
    &&& rec.sender_balance_after_erc20@ == fs[6]
    &&& rec.recipient@ == fs[7]
    &&& rec.recipient_balance_before_eth@ == fs[8]
    &&& rec.recipient_balance_after_eth@ == fs[9]
    &&& rec.recipient_balance_before_erc20@ == fs[10]
    &&& rec.recipient_balance_after_erc20@ == fs[11]
    &&& rec.function@ == fs[12]
    &&& rec.msg_value@ == fs[13]
    &&& rec.calldata_value@ == fs[14]
    &&& rec.msg_sender_owned_token_ids@ == fs[15]
    &&& rec.tx_fee@ == fs[16]
    &&& rec.gas_price@ == fs[17]
    &&& rec.gas_used@ == fs[18]
    &&& rec.receipt_json@ == fs[19]
}

/// The document parses as CSV rows.
pub open spec fn doc_parses(c: Seq<char>) -> bool {
    parse_rows(c) is Some
}

/// The parsed rows of a document.
pub open spec fn doc_rows(c: Seq<char>) -> Seq<Seq<Seq<char>>> {
    parse_rows(c)->0
}

/// A nonempty document opens with the schema header.
pub open spec fn doc_header_ok(c: Seq<char>) -> bool {
    doc_rows(c).len() == 0 || doc_rows(c)[0] == header_fields()
}

/// Every data row is acceptable to the read path.
pub open spec fn doc_data_ok(c: Seq<char>) -> bool {
    forall|i: int| 1 <= i < doc_rows(c).len() ==> row_parses(#[trigger] doc_rows(c)[i])
}

/// A well-formed ledger document.
pub open spec fn wf_ledger_doc(c: Seq<char>) -> bool {
    doc_parses(c) && doc_header_ok(c) && doc_data_ok(c)
}

/// The highest derivation index among the data rows (the header sits at
/// index 0), or zero where there are none.
pub open spec fn max_data_derivation(rows: Seq<Seq<Seq<char>>>) -> nat
    decreases rows.len(),
{
    if rows.len() <= 1 {
        0
    } else {
        let m = max_data_derivation(rows.drop_last());
        let d = dec_val(rows.last()[1]);
        if d > m {
            d
        } else {
            m
        }
    }
}

/// The highest derivation index among records, or zero where there are none.
pub open spec fn max_derivation(rs: Seq<Record>) -> nat
    decreases rs.len(),
{
    if rs.len() == 0 {
        0
    } else {
        let m = max_derivation(rs.drop_last());
        if rs.last().derivation as nat > m {
            rs.last().derivation as nat
        } else {
            m
        }
    }
}

/// The exec header row, in schema order.
pub fn ledger_header() -> (r: Vec<String>)
    ensures
        r.deep_view() == header_fields(),
        r@.len() == 20,
{
    let mut v: Vec<String> = Vec::new();
    v.push("Transaction Hash".to_owned());
    v.push("Derivation".to_owned());
    v.push("Sender".to_owned());
    v.push("Sender Balance Before (ETH)".to_owned());
    v.push("Sender Balance After (ETH)".to_owned());
    v.push("Sender Balance Before (ERC20)".to_owned());
    v.push("Sender Balance After (ERC20)".to_owned());
    v.push("Recipient".to_owned());
    v.push("Recipient Balance Before (ETH)".to_owned());
    v.push("Recipient Balance After (ETH)".to_owned());
    v.push("Recipient Balance Before (ERC20)".to_owned());
    v.push("Recipient Balance After (ERC20)".to_owned());
    v.push("Function".to_owned());
    v.push("Msg Value".to_owned());
    v.push("Calldata Value".to_owned());
    v.push("Msg.sender Owned Token IDs".to_owned());
    v.push("Tx Fee".to_owned());
    v.push("Gas Price".to_owned());
    v.push("Gas Used".to_owned());
    v.push("Receipt JSON".to_owned());
    proof {
        assert(v.deep_view() =~= header_fields());
    }
    v
}

/// Whether the given fields are exactly the schema header.
fn is_header(fields: &Vec<String>) -> (r: bool)
    ensures
        r == (fields.deep_view() == header_fields()),
{
    if fields.len() != 20 {
        proof {
            assert(fields.deep_view().len() == fields@.len());
        }
        return false;
    }
    let ok = str_eq(fields[0].as_str(), "Transaction Hash") && str_eq(
        fields[1].as_str(),
        "Derivation",
    ) && str_eq(fields[2].as_str(), "Sender") && str_eq(
        fields[3].as_str(),
        "Sender Balance Before (ETH)",
    ) && str_eq(fields[4].as_str(), "Sender Balance After (ETH)") && str_eq(
        fields[5].as_str(),
        "Sender Balance Before (ERC20)",
    ) && str_eq(fields[6].as_str(), "Sender Balance After (ERC20)") && str_eq(
        fields[7].as_str(),
        "Recipient",
    ) && str_eq(fields[8].as_str(), "Recipient Balance Before (ETH)") && str_eq(
        fields[9].as_str(),
        "Recipient Balance After (ETH)",
    ) && str_eq(fields[10].as_str(), "Recipient Balance Before (ERC20)") && str_eq(
        fields[11].as_str(),
        "Recipient Balance After (ERC20)",
    ) && str_eq(fields[12].as_str(), "Function") && str_eq(fields[13].as_str(), "Msg Value")
        && str_eq(fields[14].as_str(), "Calldata Value") && str_eq(
        fields[15].as_str(),
        "Msg.sender Owned Token IDs",
    ) && str_eq(fields[16].as_str(), "Tx Fee") && str_eq(fields[17].as_str(), "Gas Price")
        && str_eq(fields[18].as_str(), "Gas Used") && str_eq(fields[19].as_str(), "Receipt JSON");
    proof {
        assert(fields.deep_view().len() == 20);
        if ok {
            assert(fields.deep_view() =~= header_fields());
        } else {
            assert(fields.deep_view() != header_fields());
        }
    }
    ok
}

/// Rebuilds the record a data row carries; `None` exactly when the row is
/// not acceptable.
fn fields_to_record(fields: &Vec<String>) -> (r: Option<Record>)
    ensures
        match r {
            Some(rec) => row_parses(fields.deep_view()) && record_matches_row(
                rec,
                fields.deep_view(),
            ),
            None => !row_parses(fields.deep_view()),
        },
{
    if fields.len() != 20 {
        proof {
            assert(fields.deep_view().len() == fields@.len());
        }
        return None;
    }
    let derivation = match parse_dec_u32(fields[1].as_str()) {
        Some(d) => d,
        None => {
            return None;
        },
    };
    Some(
        Record {
            transaction_hash: fields[0].clone(),
            derivation,
            sender: fields[2].clone(),
            sender_balance_before_eth: fields[3].clone(),
            sender_balance_after_eth: fields[4].clone(),
            sender_balance_before_erc20: fields[5].clone(),
            sender_balance_after_erc20: fields[6].clone(),
            recipient: fields[7].clone(),
            recipient_balance_before_eth: fields[8].clone(),
            recipient_balance_after_eth: fields[9].clone(),
            recipient_balance_before_erc20: fields[10].clone(),
            recipient_balance_after_erc20: fields[11].clone(),
            function: fields[12].clone(),
            msg_value: fields[13].clone(),
            calldata_value: fields[14].clone(),
            msg_sender_owned_token_ids: fields[15].clone(),
            tx_fee: fields[16].clone(),
            gas_price: fields[17].clone(),
            gas_used: fields[18].clone(),
            receipt_json: fields[19].clone(),
        },
    )
}

/// Reads a ledger document into its records. The text must parse as CSV;
/// a nonempty document must open with the exact schema header; every data
/// row must be acceptable. An empty document yields no records.
pub fn read_from_csv(content: &str) -> (r: Result<Vec<Record>, LedgerError>)
    ensures
        match r {
            Ok(records) => wf_ledger_doc(content@) && (doc_rows(content@).len() == 0 ==> records@
                .len() == 0) && (doc_rows(content@).len() >= 1 ==> records@.len() + 1 == doc_rows(
                content@,
            ).len()) && (forall|i: int|
                0 <= i < records@.len() ==> record_matches_row(
                    #[trigger] records@[i],
                    doc_rows(content@)[i + 1],
                )),
            Err(e) => !wf_ledger_doc(content@) && (match e {
                LedgerError::SchemaMismatch => doc_parses(content@) && doc_rows(content@).len()
                    >= 1 && doc_rows(content@)[0] != header_fields(),
                LedgerError::IoFailure => !doc_parses(content@) || (doc_header_ok(content@)
                    && !doc_data_ok(content@)),
                _ => false,
            }),
        },
{
    let rows = match parse_csv(content) {
        Some(rows) => rows,
        None => {
            return Err(LedgerError::IoFailure);
        },
    };
    let n = rows.len();
    proof {
        assert(doc_rows(content@) == rows.deep_view());
        assert(rows.deep_view().len() == rows@.len());
        assert(forall|i: int|
            0 <= i < rows@.len() ==> rows.deep_view()[i] == #[trigger] rows@[i].deep_view());
    }
    if n == 0 {
        let records: Vec<Record> = Vec::new();
        return Ok(records);
    }
    if !is_header(&rows[0]) {
        return Err(LedgerError::SchemaMismatch);
    }
    let mut records: Vec<Record> = Vec::new();
    let mut i: usize = 1;
    while i < n
        invariant
            1 <= i <= n,
            n == rows@.len(),
            doc_rows(content@) == rows.deep_view(),
            doc_parses(content@),
            doc_header_ok(content@),
            rows.deep_view().len() == n,
            forall|k: int|
                0 <= k < rows@.len() ==> rows.deep_view()[k] == #[trigger] rows@[k].deep_view(),
            records@.len() + 1 == i,
            forall|j: int| 1 <= j < i ==> row_parses(#[trigger] rows.deep_view()[j]),
            forall|j: int|
                0 <= j < records@.len() ==> record_matches_row(
                    #[trigger] records@[j],
                    rows.deep_view()[j + 1],
                ),
        decreases n - i,
    {
        match fields_to_record(&rows[i]) {
            Some(rec) => {
                records.push(rec);
            },
            None => {
                proof {
                    assert(!row_parses(doc_rows(content@)[i as int]));
                    assert(!doc_data_ok(content@));
                }
                return Err(LedgerError::IoFailure);
            },
        }
        i += 1;
    }
    Ok(records)
}

/// Suggests the next derivation index from the recorded history: one past
/// the highest recorded index. A ledger that exists without data rows is a
/// corrupt state, not a fresh one.
pub fn next_derivation(records: &Vec<Record>) -> (r: Result<u32, LedgerError>)
    ensures
        match r {
            Ok(v) => records@.len() >= 1 && max_derivation(records@) < u32::MAX && v as nat
                == max_derivation(records@) + 1,
            Err(e) => match e {
                LedgerError::EmptyLedger => records@.len() == 0,
                LedgerError::IndexExhausted => records@.len() >= 1 && max_derivation(records@)
                    == u32::MAX,
                _ => false,
            },
        },
{
    let n = records.len();
    if n == 0 {
        return Err(LedgerError::EmptyLedger);
    }
    let mut highest: u32 = 0;
    let mut i: usize = 0;
    while i < n
        invariant
            0 <= i <= n,
            n == records@.len(),
            highest as nat == max_derivation(records@.take(i as int)),
        decreases n - i,
    {
        let d = records[i].derivation;
        proof {
            assert(records@.take(i + 1).drop_last() =~= records@.take(i as int));
            assert(records@.take(i + 1).last() == records@[i as int]);
        }
        if d > highest {
            highest = d;
        }
        i += 1;
    }
    proof {
        assert(records@.take(n as int) =~= records@);
    }
    if highest == u32::MAX {
        return Err(LedgerError::IndexExhausted);
    }
    Ok(highest + 1)
}

/// Bridges the record-level maximum to the row-level one.
pub proof fn lemma_max_derivation_rows(records: Seq<Record>, rows: Seq<Seq<Seq<char>>>)
    requires
        rows.len() == records.len() + 1,
        forall|i: int|
            0 <= i < records.len() ==> (#[trigger] records[i]).derivation as nat == dec_val(
                rows[i + 1][1],
            ),
    ensures
        max_derivation(records) == max_data_derivation(rows),
    decreases records.len(),
{
    if records.len() == 0 {
    } else {
        lemma_max_derivation_rows(records.drop_last(), rows.drop_last());
        assert(rows.drop_last().len() == records.drop_last().len() + 1);
        assert(records.last() == records[records.len() - 1]);
        assert(rows.last() == rows[rows.len() - 1]);
        assert(records[records.len() - 1].derivation as nat == dec_val(rows[records.len() as int][1]));
    }
}

/// Resolves the derivation index from the ledger at a path: an absent file
/// starts at index zero; a present one suggests one past its highest
/// recorded index, and is rejected when empty or malformed.
pub fn resolve_derivation(content: &Option<String>) -> (r: Result<u32, LedgerError>)
    ensures
        content is None ==> r == Result::<u32, LedgerError>::Ok(0u32),
        content matches Some(c) ==> (match r {
            Ok(v) => wf_ledger_doc(c@) && doc_rows(c@).len() > 1 && max_data_derivation(
                doc_rows(c@),
            ) < u32::MAX && v as nat == max_data_derivation(doc_rows(c@)) + 1,
            Err(e) => match e {
                LedgerError::EmptyLedger => wf_ledger_doc(c@) && doc_rows(c@).len() <= 1,
                LedgerError::IndexExhausted => wf_ledger_doc(c@) && doc_rows(c@).len() > 1
                    && max_data_derivation(doc_rows(c@)) == u32::MAX,
                LedgerError::SchemaMismatch => doc_parses(c@) && doc_rows(c@).len() >= 1
                    && doc_rows(c@)[0] != header_fields(),
                LedgerError::IoFailure => !doc_parses(c@) || (doc_header_ok(c@) && !doc_data_ok(
                    c@,
                )),
            },
        }),
{
    match content {
        None => Ok(0),
        Some(c) => {
            let records = match read_from_csv(c.as_str()) {
                Ok(records) => records,
                Err(e) => {
                    return Err(e);
                },
            };
            let r = next_derivation(&records);
            proof {
                if records@.len() == 0 {
                } else {
                    lemma_max_derivation_rows(records@, doc_rows(c@));
                }
            }
            r
        },
    }
}

/// A monetary column: the amount in ETH units, a missing value written as
/// zero to preserve the fixed column count.
pub open spec fn opt_eth_str(v: Option<U256>) -> Seq<char> {
    shifted_decimal_str(
        dec_str_of(
            match v {
                Some(u) => u@,
                None => 0,
            },
        ),
        18,
    )
}

/// Token ids joined by commas.
pub open spec fn joined_ids(ids: Seq<U256>) -> Seq<char>
    decreases ids.len(),
{
    if ids.len() == 0 {
        Seq::empty()
    } else if ids.len() == 1 {
        dec_str_of(ids[0]@)
    } else {
        dec_str_of(ids[0]@) + seq![','] + joined_ids(ids.drop_first())
    }
}

/// The owned-token-id column: comma-joined decimals, or empty when absent.
pub open spec fn owned_ids_str(ids: Option<Vec<U256>>) -> Seq<char> {
    match ids {
        Some(v) => joined_ids(v@),
        None => Seq::empty(),
    }
}

/// The 20 fields of a new ledger row, in schema order.
pub open spec fn ledger_row_fields(
    tx_hash: Seq<char>,
    gas_price: Seq<char>,
    gas_used: Seq<char>,
    tx_fee: Seq<char>,
    receipt_json: Seq<char>,
    call_function: Seq<char>,
    derivation_number: u32,
    msg_sender: Seq<u8>,
    sender_eth_bef: Option<U256>,
    sender_eth_aft: Option<U256>,
    sender_erc20_bef: Option<U256>,
    sender_erc20_aft: Option<U256>,
    msg_recipient: Seq<u8>,
    recipient_eth_bef: Option<U256>,
    recipient_eth_aft: Option<U256>,
    recipient_erc20_bef: Option<U256>,
    recipient_erc20_aft: Option<U256>,
    msg_value: Option<U256>,
    calldata_value: Option<U256>,
    owned_ids: Option<Vec<U256>>,
) -> Seq<Seq<char>> {
    seq![
        tx_hash,
        dec_str_of(derivation_number as nat),
        addr_display(msg_sender),
        opt_eth_str(sender_eth_bef),
        opt_eth_str(sender_eth_aft),
        opt_eth_str(sender_erc20_bef),
        opt_eth_str(sender_erc20_aft),
        addr_display(msg_recipient),
        opt_eth_str(recipient_eth_bef),
        opt_eth_str(recipient_eth_aft),
        opt_eth_str(recipient_erc20_bef),
        opt_eth_str(recipient_erc20_aft),
        call_function,
        opt_eth_str(msg_value),
        opt_eth_str(calldata_value),
        owned_ids_str(owned_ids),
        tx_fee,
        gas_price,
        gas_used,
        receipt_json,
    ]
}

/// Renders a monetary column.
fn eth_opt(v: &Option<U256>) -> (r: String)
    ensures
        r@ == opt_eth_str(*v),
{
    match v {
        Some(u) => {
            let d = u.to_dec_string();
            str_wei_to_eth(d.as_str())
        },
        None => {
            let z = U256::zero();
            let d = z.to_dec_string();
            str_wei_to_eth(d.as_str())
        },
    }
}

/// Renders the comma-joined token ids from position `i` on.
fn join_ids_from(ids: &Vec<U256>, i: usize) -> (r: String)
    requires
        i <= ids@.len(),
    ensures
        r@ == joined_ids(ids@.skip(i as int)),
    decreases ids@.len() - i,
{
    let n = ids.len();
    if i == n {
        let r = String::new();
        proof {
            assert(ids@.skip(i as int) =~= Seq::<U256>::empty());
        }
        r
    } else if i + 1 == n {
        let r = ids[i].to_dec_string();
        proof {
            assert(ids@.skip(i as int).len() == 1);
            assert(ids@.skip(i as int)[0] == ids@[i as int]);
        }
        r
    } else {
        let mut out = ids[i].to_dec_string();
        push_char(&mut out, ',');
        let tail = join_ids_from(ids, i + 1);
        out.append(tail.as_str());
        proof {
            let sub = ids@.skip(i as int);
            assert(sub.len() > 1);
            assert(sub[0] == ids@[i as int]);
            assert(sub.drop_first() =~= ids@.skip(i as int + 1));
            assert(out@ =~= dec_str_of(sub[0]@) + seq![','] + joined_ids(sub.drop_first()));
        }
        out
    }
}

/// Appends one row to the ledger, in text form. A fresh ledger opens with
/// the schema header; an existing one is accepted only when its first row
/// is exactly that header, and its text is carried over unchanged, so a
/// rejected append leaves nothing to write and an accepted one never
/// touches the rows already present. Monetary quantities are written in
/// ETH units, absent values as zero, the owned-token-id list comma-joined.
pub fn write_to_csv(
    existing: &Option<String>,
    tx_hash: &str,
    gas_price: &str,
    gas_used: &str,
    tx_fee: &str,
    receipt_json_str: &str,
    call_function: &str,
    derivation_number: u32,
    msg_sender: &Address,
    sender_eth_balance_bef: Option<U256>,
    sender_eth_balance_aft: Option<U256>,
    sender_erc20_balance_bef: Option<U256>,
    sender_erc20_balance_aft: Option<U256>,
    msg_recipient: &Address,
    recipient_eth_balance_bef: Option<U256>,
    recipient_eth_balance_aft: Option<U256>,
    recipient_erc20_balance_bef: Option<U256>,
    recipient_erc20_balance_aft: Option<U256>,
    msg_value: Option<U256>,
    calldata_value: Option<U256>,
    msg_sender_owned_token_ids: Option<Vec<U256>>,
) -> (r: Result<String, LedgerError>)
    ensures
        ({
            let row = ledger_row_fields(
                tx_hash@,
                gas_price@,
                gas_used@,
                tx_fee@,
                receipt_json_str@,
                call_function@,
                derivation_number,
                msg_sender@,
                sender_eth_balance_bef,
                sender_eth_balance_aft,
                sender_erc20_balance_bef,
                sender_erc20_balance_aft,
                msg_recipient@,
                recipient_eth_balance_bef,
                recipient_eth_balance_aft,
                recipient_erc20_balance_bef,
                recipient_erc20_balance_aft,
                msg_value,
                calldata_value,
                msg_sender_owned_token_ids,
            );
            match existing {
                Option::None => r matches Ok(out) && out@ == encode_row(header_fields())
                    + encode_row(row),
                Option::Some(c) => {
                    if (parse_row(c@) matches Some(p) && p.0 == header_fields()) {
                        r matches Ok(out) && out@ == c@ + encode_row(row)
                    } else {
                        r == Result::<String, LedgerError>::Err(LedgerError::SchemaMismatch)
                    }
                },
            }
        }),
{
    let mut fields: Vec<String> = Vec::new();
    fields.push(tx_hash.to_owned());
    fields.push(u32_to_string(derivation_number));
    fields.push(msg_sender.to_hex_string());
    fields.push(eth_opt(&sender_eth_balance_bef));
    fields.push(eth_opt(&sender_eth_balance_aft));
    fields.push(eth_opt(&sender_erc20_balance_bef));
    fields.push(eth_opt(&sender_erc20_balance_aft));
    fields.push(msg_recipient.to_hex_string());
    fields.push(eth_opt(&recipient_eth_balance_bef));
    fields.push(eth_opt(&recipient_eth_balance_aft));
    fields.push(eth_opt(&recipient_erc20_balance_bef));
    fields.push(eth_opt(&recipient_erc20_balance_aft));
    fields.push(call_function.to_owned());
    fields.push(eth_opt(&msg_value));
    fields.push(eth_opt(&calldata_value));
    match &msg_sender_owned_token_ids {
        Some(ids) => {
            let joined = join_ids_from(ids, 0);
            proof {
                assert(ids@.skip(0) =~= ids@);
            }
            fields.push(joined);
        },
        None => {
            fields.push(String::new());
        },
    }
    fields.push(tx_fee.to_owned());
    fields.push(gas_price.to_owned());
    fields.push(gas_used.to_owned());
    fields.push(receipt_json_str.to_owned());
    proof {
        assert(fields.deep_view() =~= ledger_row_fields(
            tx_hash@,
            gas_price@,
            gas_used@,
            tx_fee@,
            receipt_json_str@,
            call_function@,
            derivation_number,
            msg_sender@,
            sender_eth_balance_bef,
            sender_eth_balance_aft,
            sender_erc20_balance_bef,
            sender_erc20_balance_aft,
            msg_recipient@,
            recipient_eth_balance_bef,
            recipient_eth_balance_aft,
            recipient_erc20_balance_bef,
            recipient_erc20_balance_aft,
            msg_value,
            calldata_value,
            msg_sender_owned_token_ids,
        ));
    }
    let row_line = encode_csv_row(&fields);
    match existing {
        None => {
            let header = ledger_header();
            let mut out = encode_csv_row(&header);
            out.append(row_line.as_str());
            Ok(out)
        },
        Some(c) => {
            match parse_csv_first_row(c.as_str()) {
                Some(first) => {
                    if is_header(&first) {
                        let mut out = c.clone();
                        out.append(row_line.as_str());
                        Ok(out)
                    } else {
                        Err(LedgerError::SchemaMismatch)
                    }
                },
                None => Err(LedgerError::SchemaMismatch),
            }
        },
    }
}

/// Round trip: the document a fresh append writes re-reads as exactly the
/// header and that row. With the read path's contract, the record handed
/// back carries the row field for field.
pub proof fn lemma_ledger_round_trip(row: Seq<Seq<char>>)
    requires
        row_parses(row),
    ensures
        parse_rows(encode_row(header_fields()) + encode_row(row)) == Some(
            seq![header_fields(), row],
        ),
        wf_ledger_doc(encode_row(header_fields()) + encode_row(row)),
        doc_rows(encode_row(header_fields()) + encode_row(row)) == seq![header_fields(), row],
{
    let rows = seq![header_fields(), row];
    assert(rows[0].len() == 20);
    assert(rows[1].len() == 20);
    assert(forall|i: int| 0 <= i < rows.len() ==> #[trigger] rows[i].len() >= 1);
    lemma_csv_round_trip(rows);
    let doc = encode_row(header_fields()) + encode_row(row);
    assert(crate::csvfmt::encode_rows(rows) =~= doc) by {
        assert(rows.drop_first() =~= seq![row]);
        assert(seq![row].drop_first() =~= Seq::<Seq<Seq<char>>>::empty());
        assert(crate::csvfmt::encode_rows(seq![row].drop_first()) =~= Seq::<char>::empty());
        assert(crate::csvfmt::encode_rows(seq![row]) =~= encode_row(row));
        assert(crate::csvfmt::encode_rows(rows) =~= encode_row(rows[0])
            + crate::csvfmt::encode_rows(rows.drop_first()));
    }
    assert(doc_rows(doc) == rows);
}

/// The general append round trip: adding one encoded row to a document
/// that parses extends its parsed rows by exactly that row. The rows
/// already present are untouched, and a well-formed ledger stays well
/// formed, so with the read path's contract the appended row is read back
/// field for field.
pub proof fn lemma_ledger_append_round_trip(c: Seq<char>, row: Seq<Seq<char>>)
    requires
        doc_parses(c),
        row_parses(row),
    ensures
        parse_rows(c + encode_row(row)) == Some(doc_rows(c).push(row)),
        wf_ledger_doc(c) && doc_rows(c).len() >= 1 ==> wf_ledger_doc(c + encode_row(row)),
{
    let rows1 = seq![row];
    assert(forall|i: int| 0 <= i < rows1.len() ==> #[trigger] rows1[i].len() >= 1);
    lemma_csv_round_trip(rows1);
    assert(crate::csvfmt::encode_rows(rows1) =~= encode_row(row)) by {
        assert(rows1.drop_first() =~= Seq::<Seq<Seq<char>>>::empty());
        assert(crate::csvfmt::encode_rows(rows1.drop_first()) =~= Seq::<char>::empty());
    }
    lemma_parse_rows_append(c, encode_row(row));
    assert(doc_rows(c) + rows1 =~= doc_rows(c).push(row));
    let d = c + encode_row(row);
    assert(doc_rows(d) == doc_rows(c).push(row));
    if wf_ledger_doc(c) && doc_rows(c).len() >= 1 {
        assert(doc_rows(d)[0] == doc_rows(c)[0]);
        assert(forall|i: int|
            1 <= i < doc_rows(d).len() ==> row_parses(#[trigger] doc_rows(d)[i])) by {
            assert(forall|i: int|
                1 <= i < doc_rows(c).len() ==> row_parses(#[trigger] doc_rows(c)[i]));
            assert(forall|i: int|
                1 <= i < doc_rows(c).len() ==> doc_rows(d)[i] == #[trigger] doc_rows(c)[i]);
            assert(doc_rows(d)[doc_rows(d).len() - 1] == row);
        }
    }
}

} // verus!
