//! The CSV text of the ledger: comma-delimited fields, rows ended by a
//! newline, a field quoted exactly when it holds a delimiter, a quote or a
//! line break, and quotes escaped by doubling. Encoding and parsing are
//! both specified functionally, and parsing provably re-reads what
//! encoding wrote.

use crate::text::push_char;
use vstd::prelude::*;

verus! {

// ---------------------------------------------------------------------------
// Specification: encoding
// ---------------------------------------------------------------------------

/// A field that must be quoted to survive the trip.
pub open spec fn needs_quoting(f: Seq<char>) -> bool {
    f.contains(',') || f.contains('"') || f.contains('\n') || f.contains('\r')
}

/// Every quote doubled.
pub open spec fn escape_quotes(f: Seq<char>) -> Seq<char>
    decreases f.len(),
{
    if f.len() == 0 {
        f
    } else if f.first() == '"' {
        seq!['"', '"'] + escape_quotes(f.drop_first())
    } else {
        seq![f.first()] + escape_quotes(f.drop_first())
    }
}

/// A field as written: quoted and escaped only when necessary.
pub open spec fn encode_field(f: Seq<char>) -> Seq<char> {
    if needs_quoting(f) {
        seq!['"'] + escape_quotes(f) + seq!['"']
    } else {
        f
    }
}

/// A row as written: fields joined by ',', ended by '\n'.
pub open spec fn encode_row(fields: Seq<Seq<char>>) -> Seq<char>
    decreases fields.len(),
{
    if fields.len() <= 1 {
        encode_field(
            if fields.len() == 0 {
                Seq::empty()
            } else {
                fields[0]
            },
        ) + seq!['\n']
    } else {
        encode_field(fields[0]) + seq![','] + encode_row(fields.drop_first())
    }
}

/// A document as written: rows in order.
pub open spec fn encode_rows(rows: Seq<Seq<Seq<char>>>) -> Seq<char>
    decreases rows.len(),
{
    if rows.len() == 0 {
        Seq::empty()
    } else {
        encode_row(rows[0]) + encode_rows(rows.drop_first())
    }
}

// ---------------------------------------------------------------------------
// Specification: parsing
// ---------------------------------------------------------------------------

/// Reads an unquoted field: the text up to the next ',' or '\n' or the end;
/// a quote or carriage return inside it is malformed.
pub open spec fn parse_unquoted(s: Seq<char>) -> Option<(Seq<char>, Seq<char>)>
    decreases s.len(),
{
    if s.len() == 0 {
        Some((Seq::empty(), s))
    } else if s.first() == ',' || s.first() == '\n' {
        Some((Seq::empty(), s))
    } else if s.first() == '"' || s.first() == '\r' {
        Option::None
    } else {
        match parse_unquoted(s.drop_first()) {
            Some((f, rest)) => Some((seq![s.first()] + f, rest)),
            None => Option::None,
        }
    }
}

/// Reads the body of a quoted field after its opening quote: a doubled
/// quote stands for one, a lone quote closes the field.
pub open spec fn parse_quoted(s: Seq<char>) -> Option<(Seq<char>, Seq<char>)>
    decreases s.len(),
{
    if s.len() == 0 {
        Option::None
    } else if s.first() == '"' {
        if s.len() >= 2 && s[1] == '"' {
            match parse_quoted(s.skip(2)) {
                Some((f, rest)) => Some((seq!['"'] + f, rest)),
                None => Option::None,
            }
        } else {
            Some((Seq::empty(), s.drop_first()))
        }
    } else {
        match parse_quoted(s.drop_first()) {
            Some((f, rest)) => Some((seq![s.first()] + f, rest)),
            None => Option::None,
        }
    }
}

/// Reads one field, quoted or not.
pub open spec fn parse_field(s: Seq<char>) -> Option<(Seq<char>, Seq<char>)> {
    if s.len() > 0 && s.first() == '"' {
        parse_quoted(s.drop_first())
    } else {
        parse_unquoted(s)
    }
}

/// What a successful field parse leaves behind never exceeds the input.
pub proof fn lemma_parse_unquoted_rest_len(s: Seq<char>)
    ensures
        parse_unquoted(s) matches Some(p) ==> p.1.len() <= s.len(),
    decreases s.len(),
{
    if s.len() > 0 {
        lemma_parse_unquoted_rest_len(s.drop_first());
    }
}

/// A quoted body consumes at least its closing quote.
pub proof fn lemma_parse_quoted_rest_len(s: Seq<char>)
    ensures
        parse_quoted(s) matches Some(p) ==> p.1.len() < s.len(),
    decreases s.len(),
{
    if s.len() > 0 {
        if s.first() == '"' {
            if s.len() >= 2 && s[1] == '"' {
                lemma_parse_quoted_rest_len(s.skip(2));
            }
        } else {
            lemma_parse_quoted_rest_len(s.drop_first());
        }
    }
}

pub proof fn lemma_parse_field_rest_len(s: Seq<char>)
    ensures
        parse_field(s) matches Some(p) ==> p.1.len() <= s.len(),
{
    if s.len() > 0 && s.first() == '"' {
        lemma_parse_quoted_rest_len(s.drop_first());
    } else {
        lemma_parse_unquoted_rest_len(s);
    }
}

/// Reads one row: fields separated by ',', closed by '\n'.
pub open spec fn parse_row(s: Seq<char>) -> Option<(Seq<Seq<char>>, Seq<char>)>
    decreases s.len(),
        via parse_row_decreases
{
    match parse_field(s) {
        None => Option::None,
        Some((f, rest)) => {
            if rest.len() == 0 {
                Option::None
            } else if rest.first() == ',' {
                match parse_row(rest.drop_first()) {
                    Some((fs, tail)) => Some((seq![f] + fs, tail)),
                    None => Option::None,
                }
            } else if rest.first() == '\n' {
                Some((seq![f], rest.drop_first()))
            } else {
                Option::None
            }
        },
    }
}

#[via_fn]
proof fn parse_row_decreases(s: Seq<char>) {
    lemma_parse_field_rest_len(s);
}

/// A row consumes at least its closing '\n'.
pub proof fn lemma_parse_row_rest_len(s: Seq<char>)
    ensures
        parse_row(s) matches Some(p) ==> p.1.len() < s.len(),
    decreases s.len(),
{
    lemma_parse_field_rest_len(s);
    match parse_field(s) {
        None => {},
        Some((f, rest)) => {
            if rest.len() > 0 && rest.first() == ',' {
                lemma_parse_row_rest_len(rest.drop_first());
            }
        },
    }
}

/// Reads a whole document: rows until the text ends.
pub open spec fn parse_rows(s: Seq<char>) -> Option<Seq<Seq<Seq<char>>>>
    decreases s.len(),
        via parse_rows_decreases
{
    if s.len() == 0 {
        Some(Seq::empty())
    } else {
        match parse_row(s) {
            None => Option::None,
            Some((fs, rest)) => match parse_rows(rest) {
                Some(rows) => Some(seq![fs] + rows),
                None => Option::None,
            },
        }
    }
}

#[via_fn]
proof fn parse_rows_decreases(s: Seq<char>) {
    lemma_parse_row_rest_len(s);
}

// ---------------------------------------------------------------------------
// Round trip: parsing recovers exactly what encoding wrote
// ---------------------------------------------------------------------------

proof fn lemma_not_contains_drop_first(f: Seq<char>, c: char)
    requires
        f.len() > 0,
        !f.contains(c),
    ensures
        !f.drop_first().contains(c),
{
    if f.drop_first().contains(c) {
        let i = choose|i: int| 0 <= i < f.drop_first().len() && f.drop_first()[i] == c;
        assert(f[i + 1] == c);
    }
}

proof fn lemma_parse_unquoted_of_plain(f: Seq<char>, rest: Seq<char>)
    requires
        !needs_quoting(f),
        rest.len() == 0 || rest.first() == ',' || rest.first() == '\n',
    ensures
        parse_unquoted(f + rest) == Some((f, rest)),
    decreases f.len(),
{
    let s = f + rest;
    if f.len() == 0 {
        assert(s =~= rest);
        if rest.len() == 0 {
            assert(parse_unquoted(s) == Some((Seq::<char>::empty(), s)));
            assert(Seq::<char>::empty() =~= f);
        } else {
            assert(s.first() == ',' || s.first() == '\n');
            assert(Seq::<char>::empty() =~= f);
        }
    } else {
        assert(s.first() == f.first());
        assert(f.contains(f.first()));
        assert(f.first() != ',' && f.first() != '\n' && f.first() != '"' && f.first() != '\r');
        lemma_not_contains_drop_first(f, ',');
        lemma_not_contains_drop_first(f, '"');
        lemma_not_contains_drop_first(f, '\n');
        lemma_not_contains_drop_first(f, '\r');
        lemma_parse_unquoted_of_plain(f.drop_first(), rest);
        assert(s.drop_first() =~= f.drop_first() + rest);
        assert(seq![f.first()] + f.drop_first() =~= f);
    }
}

proof fn lemma_parse_quoted_of_escape(f: Seq<char>, rest: Seq<char>)
    requires
        rest.len() == 0 || rest.first() == ',' || rest.first() == '\n',
    ensures
        parse_quoted(escape_quotes(f) + seq!['"'] + rest) == Some((f, rest)),
    decreases f.len(),
{
    let s = escape_quotes(f) + seq!['"'] + rest;
    if f.len() == 0 {
        assert(s =~= seq!['"'] + rest);
        assert(s.first() == '"');
        if s.len() >= 2 {
            assert(s[1] == rest[0]);
            assert(s[1] != '"');
        }
        assert(s.drop_first() =~= rest);
        assert(Seq::<char>::empty() =~= f);
    } else if f.first() == '"' {
        assert(escape_quotes(f) =~= seq!['"', '"'] + escape_quotes(f.drop_first()));
        assert(s.first() == '"');
        assert(s[1] == '"');
        assert(s.len() >= 2);
        lemma_parse_quoted_of_escape(f.drop_first(), rest);
        assert(s.skip(2) =~= escape_quotes(f.drop_first()) + seq!['"'] + rest);
        assert(seq!['"'] + f.drop_first() =~= f);
    } else {
        assert(escape_quotes(f) =~= seq![f.first()] + escape_quotes(f.drop_first()));
        assert(s.first() == f.first());
        assert(s.first() != '"');
        lemma_parse_quoted_of_escape(f.drop_first(), rest);
        assert(s.drop_first() =~= escape_quotes(f.drop_first()) + seq!['"'] + rest);
        assert(seq![f.first()] + f.drop_first() =~= f);
    }
}

proof fn lemma_parse_field_of_encode(f: Seq<char>, rest: Seq<char>)
    requires
        rest.len() == 0 || rest.first() == ',' || rest.first() == '\n',
    ensures
        parse_field(encode_field(f) + rest) == Some((f, rest)),
{
    let s = encode_field(f) + rest;
    if needs_quoting(f) {
        assert(s.first() == '"');
        assert(s.len() > 0);
        lemma_parse_quoted_of_escape(f, rest);
        assert(s.drop_first() =~= escape_quotes(f) + seq!['"'] + rest);
    } else {
        assert(s =~= f + rest);
        if s.len() > 0 && s.first() == '"' {
            if f.len() > 0 {
                assert(f.contains(f.first()));
                assert(false);
            } else {
                assert(s.first() == rest.first());
                assert(false);
            }
        }
        lemma_parse_unquoted_of_plain(f, rest);
    }
}

proof fn lemma_parse_row_of_encode(fields: Seq<Seq<char>>, rest: Seq<char>)
    requires
        fields.len() >= 1,
    ensures
        parse_row(encode_row(fields) + rest) == Some((fields, rest)),
    decreases fields.len(),
{
    let s = encode_row(fields) + rest;
    if fields.len() == 1 {
        assert(s =~= encode_field(fields[0]) + (seq!['\n'] + rest));
        lemma_parse_field_of_encode(fields[0], seq!['\n'] + rest);
        let mid = seq!['\n'] + rest;
        assert(mid.first() == '\n');
        assert(mid.drop_first() =~= rest);
        assert(seq![fields[0]] =~= fields);
    } else {
        assert(s =~= encode_field(fields[0]) + (seq![','] + (encode_row(fields.drop_first())
            + rest)));
        let mid = seq![','] + (encode_row(fields.drop_first()) + rest);
        lemma_parse_field_of_encode(fields[0], mid);
        assert(mid.first() == ',');
        assert(mid.drop_first() =~= encode_row(fields.drop_first()) + rest);
        lemma_parse_row_of_encode(fields.drop_first(), rest);
        assert(seq![fields[0]] + fields.drop_first() =~= fields);
    }
}

/// Every encoded row is at least its terminator long.
proof fn lemma_encode_row_len(fields: Seq<Seq<char>>)
    ensures
        encode_row(fields).len() >= 1,
    decreases fields.len(),
{
    if fields.len() > 1 {
        lemma_encode_row_len(fields.drop_first());
    }
}

/// The round trip of a whole document: parsing what was encoded yields the
/// same rows, for any rows that each hold at least one field.
pub proof fn lemma_csv_round_trip(rows: Seq<Seq<Seq<char>>>)
    requires
        forall|i: int| 0 <= i < rows.len() ==> #[trigger] rows[i].len() >= 1,
    ensures
        parse_rows(encode_rows(rows)) == Some(rows),
    decreases rows.len(),
{
    if rows.len() == 0 {
        assert(encode_rows(rows).len() == 0);
        assert(Seq::<Seq<Seq<char>>>::empty() =~= rows);
    } else {
        let s = encode_rows(rows);
        assert(s =~= encode_row(rows[0]) + encode_rows(rows.drop_first()));
        lemma_encode_row_len(rows[0]);
        assert(s.len() > 0);
        lemma_parse_row_of_encode(rows[0], encode_rows(rows.drop_first()));
        assert(forall|i: int|
            0 <= i < rows.drop_first().len() ==> #[trigger] rows.drop_first()[i].len() >= 1) by {
            assert(forall|i: int|
                0 <= i < rows.drop_first().len() ==> rows.drop_first()[i] =~= rows[i + 1]);
        }
        lemma_csv_round_trip(rows.drop_first());
        assert(seq![rows[0]] + rows.drop_first() =~= rows);
    }
}

// ---------------------------------------------------------------------------
// Appending: parsing distributes over concatenation of documents
// ---------------------------------------------------------------------------

proof fn lemma_parse_unquoted_append(s: Seq<char>, b: Seq<char>)
    requires
        parse_unquoted(s) matches Some(p) && p.1.len() > 0,
    ensures
        parse_unquoted(s + b) == Some(
            ((parse_unquoted(s)->0).0, (parse_unquoted(s)->0).1 + b),
        ),
    decreases s.len(),
{
    let (f, rest) = parse_unquoted(s)->0;
    lemma_parse_unquoted_rest_len(s);
    assert(s.len() > 0);
    assert((s + b).first() == s.first());
    if s.first() == ',' || s.first() == '\n' {
        assert(rest == s);
        assert(Seq::<char>::empty() =~= f);
    } else {
        lemma_parse_unquoted_append(s.drop_first(), b);
        assert((s + b).drop_first() =~= s.drop_first() + b);
    }
}

proof fn lemma_parse_quoted_append(s: Seq<char>, b: Seq<char>)
    requires
        parse_quoted(s) matches Some(p) && p.1.len() > 0 && p.1.first() != '"',
    ensures
        parse_quoted(s + b) == Some(((parse_quoted(s)->0).0, (parse_quoted(s)->0).1 + b)),
    decreases s.len(),
{
    let (f, rest) = parse_quoted(s)->0;
    assert(s.len() > 0);
    assert((s + b).first() == s.first());
    if s.first() == '"' {
        if s.len() >= 2 && s[1] == '"' {
            lemma_parse_quoted_append(s.skip(2), b);
            assert((s + b)[1] == s[1]);
            assert((s + b).skip(2) =~= s.skip(2) + b);
        } else {
            // The closing quote: the rest begins right after it.
            assert(rest =~= s.drop_first());
            assert(s.len() >= 2);
            assert(s[1] == rest.first());
            assert((s + b)[1] == s[1]);
            assert(!((s + b).len() >= 2 && (s + b)[1] == '"'));
            assert((s + b).drop_first() =~= rest + b);
            assert(Seq::<char>::empty() =~= f);
        }
    } else {
        lemma_parse_quoted_append(s.drop_first(), b);
        assert((s + b).drop_first() =~= s.drop_first() + b);
    }
}

proof fn lemma_parse_field_append(s: Seq<char>, b: Seq<char>)
    requires
        parse_field(s) matches Some(p) && p.1.len() > 0 && p.1.first() != '"',
    ensures
        parse_field(s + b) == Some(((parse_field(s)->0).0, (parse_field(s)->0).1 + b)),
{
    if s.len() > 0 && s.first() == '"' {
        assert((s + b).first() == s.first());
        lemma_parse_quoted_append(s.drop_first(), b);
        assert((s + b).drop_first() =~= s.drop_first() + b);
    } else {
        let (f, rest) = parse_unquoted(s)->0;
        if s.len() == 0 {
            lemma_parse_unquoted_rest_len(s);
            assert(rest.len() == 0);
            assert(false);
        }
        assert((s + b).first() == s.first());
        assert(s.first() != '"');
        lemma_parse_unquoted_append(s, b);
    }
}

proof fn lemma_parse_row_append(s: Seq<char>, b: Seq<char>)
    requires
        parse_row(s) is Some,
    ensures
        parse_row(s + b) == Some(((parse_row(s)->0).0, (parse_row(s)->0).1 + b)),
    decreases s.len(),
{
    let (f, rest) = parse_field(s)->0;
    assert(rest.len() > 0);
    assert(rest.first() == ',' || rest.first() == '\n');
    lemma_parse_field_append(s, b);
    lemma_parse_field_rest_len(s);
    assert((rest + b).first() == rest.first());
    if rest.first() == ',' {
        lemma_parse_row_append(rest.drop_first(), b);
        assert((rest + b).drop_first() =~= rest.drop_first() + b);
    } else {
        assert((rest + b).drop_first() =~= rest.drop_first() + b);
    }
}

/// Parsing distributes over concatenation: a document that parses, followed
/// by more rows that parse, parses as all those rows in order.
pub proof fn lemma_parse_rows_append(a: Seq<char>, b: Seq<char>)
    requires
        parse_rows(a) is Some,
        parse_rows(b) is Some,
    ensures
        parse_rows(a + b) == Some(parse_rows(a)->0 + parse_rows(b)->0),
    decreases a.len(),
{
    if a.len() == 0 {
        assert(a + b =~= b);
        assert(parse_rows(a)->0 + parse_rows(b)->0 =~= parse_rows(b)->0);
    } else {
        let (fs, rest) = parse_row(a)->0;
        lemma_parse_row_append(a, b);
        lemma_parse_row_rest_len(a);
        lemma_parse_rows_append(rest, b);
        if rest.len() == 0 && b.len() == 0 {
            assert(rest + b =~= Seq::<char>::empty());
            assert((a + b).len() > 0);
        }
        assert((a + b).len() > 0);
        assert(seq![fs] + (parse_rows(rest)->0 + parse_rows(b)->0) =~= (seq![fs] + parse_rows(
            rest,
        )->0) + parse_rows(b)->0);
    }
}

// ---------------------------------------------------------------------------
// Executable encoder
// ---------------------------------------------------------------------------

fn escape_from(f: &str, i: usize) -> (r: String)
    requires
        i <= f@.len(),
    ensures
        r@ == escape_quotes(f@.skip(i as int)),
    decreases f@.len() - i,
{
    let len = f.unicode_len();
    if i == len {
        let r = String::new();
        proof {
            assert(f@.skip(i as int) =~= Seq::<char>::empty());
        }
        r
    } else {
        let c = f.get_char(i);
        let tail = escape_from(f, i + 1);
        let mut out = String::new();
        if c == '"' {
            push_char(&mut out, '"');
            push_char(&mut out, '"');
        } else {
            push_char(&mut out, c);
        }
        out.append(tail.as_str());
        proof {
            let sub = f@.skip(i as int);
            assert(sub.first() == c);
            assert(sub.drop_first() =~= f@.skip(i as int + 1));
            if c == '"' {
                assert(out@ =~= seq!['"', '"'] + escape_quotes(sub.drop_first()));
            } else {
                assert(out@ =~= seq![c] + escape_quotes(sub.drop_first()));
            }
        }
        out
    }
}

/// Writes one field, quoting and escaping exactly when needed.
pub fn encode_field_str(f: &str) -> (r: String)
    ensures
        r@ == encode_field(f@),
{
    let needs = crate::text::str_contains_char(f, ',') || crate::text::str_contains_char(f, '"')
        || crate::text::str_contains_char(f, '\n') || crate::text::str_contains_char(f, '\r');
    if needs {
        let mut out = String::new();
        push_char(&mut out, '"');
        let body = escape_from(f, 0);
        out.append(body.as_str());
        push_char(&mut out, '"');
        proof {
            assert(f@.skip(0) =~= f@);
            assert(out@ =~= seq!['"'] + escape_quotes(f@) + seq!['"']);
        }
        out
    } else {
        f.to_owned()
    }
}

fn encode_row_from(fields: &Vec<String>, i: usize) -> (r: String)
    requires
        i < fields@.len(),
    ensures
        r@ == encode_row(fields.deep_view().skip(i as int)),
    decreases fields@.len() - i,
{
    let n = fields.len();
    let mut out = encode_field_str(fields[i].as_str());
    if i + 1 == n {
        push_char(&mut out, '\n');
        proof {
            let dv = fields.deep_view().skip(i as int);
            assert(dv.len() == 1);
            assert(dv[0] == fields.deep_view()[i as int]);
            assert(out@ =~= encode_field(dv[0]) + seq!['\n']);
        }
        out
    } else {
        proof {
            assert(i + 1 < n);
        }
        push_char(&mut out, ',');
        let tail = encode_row_from(fields, i + 1);
        out.append(tail.as_str());
        proof {
            let dv = fields.deep_view().skip(i as int);
            assert(dv.len() > 1);
            assert(dv[0] == fields.deep_view()[i as int]);
            assert(dv.drop_first() =~= fields.deep_view().skip(i as int + 1));
            assert(out@ =~= encode_field(dv[0]) + seq![','] + encode_row(dv.drop_first()));
        }
        out
    }
}

/// Writes one row: fields joined by ',' and closed by '\n'.
pub fn encode_csv_row(fields: &Vec<String>) -> (r: String)
    requires
        fields@.len() >= 1,
    ensures
        r@ == encode_row(fields.deep_view()),
{
    let r = encode_row_from(fields, 0);
    proof {
        assert(fields.deep_view().skip(0) =~= fields.deep_view());
    }
    r
}

// ---------------------------------------------------------------------------
// Executable parser
// ---------------------------------------------------------------------------

fn parse_unquoted_at(s: &str, i: usize) -> (r: Option<(String, usize)>)
    requires
        i <= s@.len(),
    ensures
        match r {
            Some(p) => i <= p.1 <= s@.len() && parse_unquoted(s@.skip(i as int)) == Some(
                (p.0@, s@.skip(p.1 as int)),
            ),
            None => parse_unquoted(s@.skip(i as int)) is None,
        },
    decreases s@.len() - i,
{
    let len = s.unicode_len();
    if i == len {
        proof {
            assert(s@.skip(i as int) =~= Seq::<char>::empty());
        }
        Some((String::new(), i))
    } else {
        let c = s.get_char(i);
        proof {
            assert(s@.skip(i as int).first() == c);
            assert(s@.skip(i as int).drop_first() =~= s@.skip(i as int + 1));
        }
        if c == ',' || c == '\n' {
            Some((String::new(), i))
        } else if c == '"' || c == '\r' {
            None
        } else {
            match parse_unquoted_at(s, i + 1) {
                Some((f, j)) => {
                    let mut out = String::new();
                    push_char(&mut out, c);
                    out.append(f.as_str());
                    proof {
                        assert(out@ =~= seq![c] + f@);
                    }
                    Some((out, j))
                },
                None => None,
            }
        }
    }
}

fn parse_quoted_at(s: &str, i: usize) -> (r: Option<(String, usize)>)
    requires
        i <= s@.len(),
    ensures
        match r {
            Some(p) => i <= p.1 <= s@.len() && parse_quoted(s@.skip(i as int)) == Some(
                (p.0@, s@.skip(p.1 as int)),
            ),
            None => parse_quoted(s@.skip(i as int)) is None,
        },
    decreases s@.len() - i,
{
    let len = s.unicode_len();
    if i == len {
        proof {
            assert(s@.skip(i as int) =~= Seq::<char>::empty());
        }
        None
    } else {
        let c = s.get_char(i);
        proof {
            assert(s@.skip(i as int).first() == c);
            assert(s@.skip(i as int).drop_first() =~= s@.skip(i as int + 1));
        }
        if c == '"' {
            if i + 1 < len && s.get_char(i + 1) == '"' {
                proof {
                    assert(s@.skip(i as int)[1] == s@[i as int + 1]);
                    assert(s@.skip(i as int).skip(2) =~= s@.skip(i as int + 2));
                }
                match parse_quoted_at(s, i + 2) {
                    Some((f, j)) => {
                        let mut out = String::new();
                        push_char(&mut out, '"');
                        out.append(f.as_str());
                        proof {
                            assert(out@ =~= seq!['"'] + f@);
                        }
                        Some((out, j))
                    },
                    None => None,
                }
            } else {
                proof {
                    if s@.skip(i as int).len() >= 2 {
                        assert(s@.skip(i as int)[1] == s@[i as int + 1]);
                    }
                }
                Some((String::new(), i + 1))
            }
        } else {
            match parse_quoted_at(s, i + 1) {
                Some((f, j)) => {
                    let mut out = String::new();
                    push_char(&mut out, c);
                    out.append(f.as_str());
                    proof {
                        assert(out@ =~= seq![c] + f@);
                    }
                    Some((out, j))
                },
                None => None,
            }
        }
    }
}

fn parse_field_at(s: &str, i: usize) -> (r: Option<(String, usize)>)
    requires
        i <= s@.len(),
    ensures
        match r {
            Some(p) => i <= p.1 <= s@.len() && parse_field(s@.skip(i as int)) == Some(
                (p.0@, s@.skip(p.1 as int)),
            ),
            None => parse_field(s@.skip(i as int)) is None,
        },
{
    let len = s.unicode_len();
    if i < len && s.get_char(i) == '"' {
        proof {
            assert(s@.skip(i as int).first() == s@[i as int]);
            assert(s@.skip(i as int).drop_first() =~= s@.skip(i as int + 1));
        }
        parse_quoted_at(s, i + 1)
    } else {
        proof {
            if i < len {
                assert(s@.skip(i as int).first() == s@[i as int]);
            } else {
                assert(s@.skip(i as int) =~= Seq::<char>::empty());
            }
        }
        parse_unquoted_at(s, i)
    }
}

fn parse_row_at(s: &str, i: usize) -> (r: Option<(Vec<String>, usize)>)
    requires
        i <= s@.len(),
    ensures
        match r {
            Some(p) => i < p.1 <= s@.len() && parse_row(s@.skip(i as int)) == Some(
                (p.0.deep_view(), s@.skip(p.1 as int)),
            ),
            None => parse_row(s@.skip(i as int)) is None,
        },
    decreases s@.len() - i,
{
    let len = s.unicode_len();
    let (field, j) = match parse_field_at(s, i) {
        Some(p) => p,
        None => {
            return None;
        },
    };
    if j == len {
        proof {
            assert(s@.skip(j as int) =~= Seq::<char>::empty());
        }
        return None;
    }
    let c = s.get_char(j);
    proof {
        assert(s@.skip(j as int).first() == c);
        assert(s@.skip(j as int).drop_first() =~= s@.skip(j as int + 1));
    }
    if c == ',' {
        match parse_row_at(s, j + 1) {
            Some((mut fs, k)) => {
                let ghost fs0 = fs.deep_view();
                let mut row: Vec<String> = Vec::new();
                row.push(field);
                row.append(&mut fs);
                proof {
                    assert(row.deep_view() =~= seq![row@[0]@] + fs0);
                }
                Some((row, k))
            },
            None => None,
        }
    } else if c == '\n' {
        let mut row: Vec<String> = Vec::new();
        row.push(field);
        proof {
            assert(row.deep_view() =~= seq![row@[0]@]);
        }
        Some((row, j + 1))
    } else {
        None
    }
}

/// Parses only the first row of a document, as a header check needs.
pub fn parse_csv_first_row(s: &str) -> (r: Option<Vec<String>>)
    ensures
        match r {
            Some(fields) => parse_row(s@) matches Some(p) && p.0 == fields.deep_view(),
            None => parse_row(s@) is None,
        },
{
    proof {
        assert(s@.skip(0) =~= s@);
    }
    match parse_row_at(s, 0) {
        Some((fields, _)) => Some(fields),
        None => None,
    }
}

/// Parses a whole CSV document into its rows of fields; `None` exactly when
/// the text is not well-formed row encodings.
pub fn parse_csv(content: &str) -> (r: Option<Vec<Vec<String>>>)
    ensures
        match r {
            Some(rows) => parse_rows(content@) == Some(rows.deep_view()),
            None => parse_rows(content@) is None,
        },
{
    let r = parse_csv_from(content, 0);
    proof {
        assert(content@.skip(0) =~= content@);
    }
    r
}

fn parse_csv_from(s: &str, i: usize) -> (r: Option<Vec<Vec<String>>>)
    requires
        i <= s@.len(),
    ensures
        match r {
            Some(rows) => parse_rows(s@.skip(i as int)) == Some(rows.deep_view()),
            None => parse_rows(s@.skip(i as int)) is None,
        },
    decreases s@.len() - i,
{
    let len = s.unicode_len();
    if i == len {
        let rows: Vec<Vec<String>> = Vec::new();
        proof {
            assert(s@.skip(i as int) =~= Seq::<char>::empty());
            assert(rows.deep_view() =~= Seq::<Seq<Seq<char>>>::empty());
        }
        Some(rows)
    } else {
        match parse_row_at(s, i) {
            Some((fields, j)) => match parse_csv_from(s, j) {
                Some(mut rows) => {
                    let ghost rows0 = rows.deep_view();
                    let mut out: Vec<Vec<String>> = Vec::new();
                    out.push(fields);
                    out.append(&mut rows);
                    proof {
                        assert(out.deep_view() =~= seq![out@[0].deep_view()] + rows0);
                    }
                    Some(out)
                },
                None => None,
            },
            None => None,
        }
    }
}

} // verus!
