//! Decimal and hexadecimal digit strings: the meaning of a digit sequence as
//! a number, rendering numbers back to strings, and the character-level
//! helpers the rest of the crate builds on.

use vstd::prelude::*;

verus! {

// ---------------------------------------------------------------------------
// Specification: digits and their numeric value
// ---------------------------------------------------------------------------

pub open spec fn is_digit_char(c: char) -> bool {
    48 <= c as int && c as int <= 57
}

/// Numeric value of a decimal digit character.
pub open spec fn digit_val(c: char) -> nat {
    (c as int - 48) as nat
}

/// The character for a decimal digit value.
pub open spec fn digit_char(d: nat) -> char {
    ((48 + d) as u8) as char
}

pub open spec fn all_digits(s: Seq<char>) -> bool {
    forall|i: int| 0 <= i < s.len() ==> is_digit_char(#[trigger] s[i])
}

/// Value of a decimal digit string, most significant digit first.
pub open spec fn dec_val(s: Seq<char>) -> nat
    decreases s.len(),
{
    if s.len() == 0 {
        0
    } else {
        dec_val(s.drop_last()) * 10 + digit_val(s.last())
    }
}

/// A canonical decimal rendering: nonempty, digits only, no leading zero
/// except for "0" itself.
pub open spec fn canonical_dec(s: Seq<char>) -> bool {
    &&& all_digits(s)
    &&& s.len() >= 1
    &&& (s.len() > 1 ==> s[0] != '0')
}

/// The canonical decimal rendering of a number.
pub open spec fn dec_str_of(n: nat) -> Seq<char>
    decreases n,
{
    if n < 10 {
        seq![digit_char(n)]
    } else {
        dec_str_of(n / 10).push(digit_char(n % 10))
    }
}

// ---------------------------------------------------------------------------
// Specification: hexadecimal digits
// ---------------------------------------------------------------------------

pub open spec fn is_hex_char(c: char) -> bool {
    ||| 48 <= c as int && c as int <= 57
    ||| 97 <= c as int && c as int <= 102
    ||| 65 <= c as int && c as int <= 70
}

/// Numeric value of a hexadecimal digit character, either case.
pub open spec fn hex_digit_val(c: char) -> nat {
    if 48 <= c as int && c as int <= 57 {
        (c as int - 48) as nat
    } else if 97 <= c as int && c as int <= 102 {
        (c as int - 87) as nat
    } else {
        (c as int - 55) as nat
    }
}

pub open spec fn all_hex(s: Seq<char>) -> bool {
    forall|i: int| 0 <= i < s.len() ==> is_hex_char(#[trigger] s[i])
}

/// Value of a hexadecimal digit string, most significant digit first.
pub open spec fn hex_val(s: Seq<char>) -> nat
    decreases s.len(),
{
    if s.len() == 0 {
        0
    } else {
        hex_val(s.drop_last()) * 16 + hex_digit_val(s.last())
    }
}

// ---------------------------------------------------------------------------
// Lemmas about decimal values
// ---------------------------------------------------------------------------

/// The value of a longer digit prefix is at least the value of a shorter one.
pub proof fn lemma_dec_val_prefix_mono(s: Seq<char>, i: int, j: int)
    requires
        0 <= i <= j <= s.len(),
    ensures
        dec_val(s.subrange(0, i)) <= dec_val(s.subrange(0, j)),
    decreases j - i,
{
    if i < j {
        lemma_dec_val_prefix_mono(s, i, j - 1);
        assert(s.subrange(0, j).drop_last() =~= s.subrange(0, j - 1));
        assert(dec_val(s.subrange(0, j)) == dec_val(s.subrange(0, j - 1)) * 10 + digit_val(
            s.subrange(0, j).last(),
        ));
    }
}

/// Peeling the most significant digit: the value of a digit string is its
/// first digit weighted by ten to the remaining length, plus the rest.
pub proof fn lemma_dec_val_first(s: Seq<char>)
    requires
        s.len() >= 1,
    ensures
        dec_val(s) == digit_val(s.first()) * pow10((s.len() - 1) as nat) + dec_val(s.drop_first()),
    decreases s.len(),
{
    if s.len() == 1 {
        assert(s.drop_last() =~= Seq::<char>::empty());
        assert(s.drop_first() =~= Seq::<char>::empty());
        assert(dec_val(Seq::<char>::empty()) == 0);
        assert(s.last() == s.first());
        assert(dec_val(s) == dec_val(s.drop_last()) * 10 + digit_val(s.last()));
        assert(pow10(0) == 1);
    } else {
        let t = s.drop_last();
        lemma_dec_val_first(t);
        assert(t.first() == s.first());
        assert(t.drop_first() =~= s.drop_first().drop_last());
        assert(s.drop_first().len() >= 1);
        assert(s.drop_first().last() == s.last());
        let n = (s.len() - 2) as nat;
        let a = digit_val(s.first());
        let b = dec_val(s.drop_first().drop_last());
        let d = digit_val(s.last());
        assert(t.len() - 1 == n);
        assert(dec_val(t) == a * pow10(n) + b);
        assert(dec_val(s) == dec_val(t) * 10 + d);
        assert((a * pow10(n) + b) * 10 == a * (pow10(n) * 10) + b * 10) by (nonlinear_arith);
        assert(pow10(n + 1) == pow10(n) * 10);
        assert(dec_val(s.drop_first()) == dec_val(s.drop_first().drop_last()) * 10 + digit_val(
            s.drop_first().last(),
        ));
        assert(dec_val(s.drop_first()) == b * 10 + d);
        assert(dec_val(s) == a * pow10(n + 1) + (b * 10 + d));
        assert((s.len() - 1) as nat == n + 1);
    }
}

pub open spec fn pow10(n: nat) -> nat
    decreases n,
{
    if n == 0 {
        1
    } else {
        pow10((n - 1) as nat) * 10
    }
}

/// Dropping a leading zero does not change the value.
pub proof fn lemma_dec_val_drop_leading_zero(s: Seq<char>)
    requires
        s.len() >= 1,
        s.first() == '0',
    ensures
        dec_val(s) == dec_val(s.drop_first()),
{
    lemma_dec_val_first(s);
    assert('0' as int == 48);
    assert(digit_val('0') == 0);
    assert(digit_val(s.first()) * pow10((s.len() - 1) as nat) == 0) by (nonlinear_arith)
        requires
            digit_val(s.first()) == 0,
    ;
}

pub proof fn lemma_pow10_pos(n: nat)
    ensures
        pow10(n) >= 1,
    decreases n,
{
    if n > 0 {
        lemma_pow10_pos((n - 1) as nat);
        assert(pow10((n - 1) as nat) * 10 >= 10) by (nonlinear_arith)
            requires
                pow10((n - 1) as nat) >= 1,
        ;
    }
}

/// Leading zeros do not contribute to the value.
pub proof fn lemma_dec_val_skip_zeros(s: Seq<char>, k: int)
    requires
        0 <= k <= s.len(),
        forall|j: int| 0 <= j < k ==> s[j] == '0',
    ensures
        dec_val(s.skip(k)) == dec_val(s),
    decreases k,
{
    if k > 0 {
        lemma_dec_val_drop_leading_zero(s);
        lemma_dec_val_skip_zeros(s.drop_first(), k - 1);
        assert(s.drop_first().skip(k - 1) =~= s.skip(k));
        assert(s.skip(0) =~= s);
    } else {
        assert(s.skip(0) =~= s);
    }
}

/// The canonical rendering evaluates back to the number and is canonical.
pub proof fn lemma_dec_str_of(n: nat)
    ensures
        dec_val(dec_str_of(n)) == n,
        canonical_dec(dec_str_of(n)),
        n >= 1 ==> dec_str_of(n).first() != '0',
    decreases n,
{
    if n < 10 {
        let s = dec_str_of(n);
        assert(s == seq![digit_char(n)]);
        assert(s.last() == digit_char(n));
        assert(s.drop_last() =~= Seq::<char>::empty());
        assert(dec_val(Seq::<char>::empty()) == 0);
        assert(digit_char(n) as int == 48 + n);
        assert(digit_val(digit_char(n)) == n);
        assert(dec_val(s) == dec_val(s.drop_last()) * 10 + digit_val(s.last()));
        assert(is_digit_char(digit_char(n)));
        assert(n >= 1 ==> digit_char(n) != '0') by {
            if n >= 1 && digit_char(n) == '0' {
                assert(digit_char(n) as int == 48 + n);
            }
        }
    } else {
        lemma_dec_str_of(n / 10);
        let s = dec_str_of(n);
        let t = dec_str_of(n / 10);
        assert(s == t.push(digit_char(n % 10)));
        assert(s.drop_last() =~= t);
        assert(s.last() == digit_char(n % 10));
        assert(digit_val(digit_char(n % 10)) == n % 10);
        assert(dec_val(s) == (n / 10) * 10 + n % 10);
        assert((n / 10) * 10 + n % 10 == n) by (nonlinear_arith);
        assert(is_digit_char(digit_char(n % 10)));
        assert(forall|i: int| 0 <= i < s.len() ==> is_digit_char(#[trigger] s[i])) by {
            assert(forall|i: int| 0 <= i < t.len() ==> is_digit_char(#[trigger] t[i]));
        }
        assert(s.first() == t.first());
    }
}

/// A canonical digit string is the canonical rendering of its own value:
/// canonical renderings are unique.
pub proof fn lemma_canonical_unique(s: Seq<char>)
    requires
        canonical_dec(s),
    ensures
        dec_str_of(dec_val(s)) == s,
    decreases s.len(),
{
    if s.len() == 1 {
        let c = s[0];
        assert(s.drop_last() =~= Seq::<char>::empty());
        assert(dec_val(Seq::<char>::empty()) == 0);
        assert(s.last() == c);
        assert(dec_val(s) == digit_val(c));
        assert(digit_val(c) < 10);
        assert(dec_str_of(dec_val(s)) == seq![digit_char(digit_val(c))]);
        assert(digit_char(digit_val(c)) as int == c as int);
        assert(digit_char(digit_val(c)) == c);
        assert(dec_str_of(dec_val(s)) =~= s);
    } else {
        let t = s.drop_last();
        assert(forall|j: int| 0 <= j < t.len() ==> t[j] == s[j]);
        assert(canonical_dec(t));
        lemma_canonical_unique(t);
        let q = dec_val(t);
        let d = digit_val(s.last());
        let v = dec_val(s);
        assert(v == q * 10 + d);
        lemma_dec_val_first(t);
        lemma_pow10_pos((t.len() - 1) as nat);
        assert(t.first() != '0' && is_digit_char(t.first()));
        assert(digit_val(t.first()) >= 1);
        assert(digit_val(t.first()) * pow10((t.len() - 1) as nat) >= 1) by (nonlinear_arith)
            requires
                digit_val(t.first()) >= 1,
                pow10((t.len() - 1) as nat) >= 1,
        ;
        assert(q >= 1);
        assert(d < 10);
        assert(v >= 10) by (nonlinear_arith)
            requires
                v == q * 10 + d,
                q >= 1,
        ;
        assert(v / 10 == q && v % 10 == d) by (nonlinear_arith)
            requires
                v == q * 10 + d,
                d < 10,
        ;
        assert(dec_str_of(v) == dec_str_of(q).push(digit_char(d)));
        assert(digit_char(d) as int == s.last() as int);
        assert(digit_char(d) == s.last());
        assert(t.push(s.last()) =~= s);
    }
}

// ---------------------------------------------------------------------------
// Executable character helpers
// ---------------------------------------------------------------------------

/// Relies on String::push: appends exactly the given character.
#[verifier::external_body]
pub(crate) fn push_char(s: &mut String, c: char)
    ensures
        final(s)@ == old(s)@.push(c),
{
    s.push(c);
}

pub fn char_to_digit(c: char) -> (r: Option<u8>)
    ensures
        match r {
            Some(d) => is_digit_char(c) && d as nat == digit_val(c) && d < 10,
            None => !is_digit_char(c),
        },
{
    let v = c as u32;
    if 48 <= v && v <= 57 {
        Some((v - 48) as u8)
    } else {
        None
    }
}

pub fn digit_to_char(d: u8) -> (c: char)
    requires
        d < 10,
    ensures
        c == digit_char(d as nat),
        is_digit_char(c),
        digit_val(c) == d as nat,
{
    (48 + d) as char
}

pub fn char_to_hex(c: char) -> (r: Option<u8>)
    ensures
        match r {
            Some(d) => is_hex_char(c) && d as nat == hex_digit_val(c) && d < 16,
            None => !is_hex_char(c),
        },
{
    let v = c as u32;
    if 48 <= v && v <= 57 {
        Some((v - 48) as u8)
    } else if 97 <= v && v <= 102 {
        Some((v - 87) as u8)
    } else if 65 <= v && v <= 70 {
        Some((v - 55) as u8)
    } else {
        None
    }
}

/// The lowercase character for a hexadecimal digit value.
pub open spec fn hex_char_lower(d: nat) -> char {
    if d < 10 {
        ((48 + d) as u8) as char
    } else {
        ((87 + d) as u8) as char
    }
}

pub fn hex_to_char(d: u8) -> (c: char)
    requires
        d < 16,
    ensures
        c == hex_char_lower(d as nat),
        is_hex_char(c),
        hex_digit_val(c) == d as nat,
{
    if d < 10 {
        (48 + d) as char
    } else {
        (87 + d) as char
    }
}

// ---------------------------------------------------------------------------
// Executable string helpers
// ---------------------------------------------------------------------------

/// Character-for-character string equality.
pub fn str_eq(a: &str, b: &str) -> (r: bool)
    ensures
        r == (a@ == b@),
{
    let alen = a.unicode_len();
    let blen = b.unicode_len();
    if alen != blen {
        return false;
    }
    let mut i: usize = 0;
    while i < alen
        invariant
            0 <= i <= alen,
            alen == a@.len(),
            alen == b@.len(),
            forall|j: int| 0 <= j < i ==> a@[j] == b@[j],
        decreases alen - i,
    {
        let ca = a.get_char(i);
        let cb = b.get_char(i);
        if ca != cb {
            return false;
        }
        i += 1;
    }
    proof {
        assert(a@ =~= b@);
    }
    true
}

pub fn str_contains_char(s: &str, c: char) -> (r: bool)
    ensures
        r == s@.contains(c),
{
    let len = s.unicode_len();
    let mut i: usize = 0;
    while i < len
        invariant
            0 <= i <= len,
            len == s@.len(),
            forall|j: int| 0 <= j < i ==> s@[j] != c,
        decreases len - i,
    {
        if s.get_char(i) == c {
            return true;
        }
        i += 1;
    }
    false
}

/// Parses a decimal string into a `u32`; strict digits, no sign, no spaces.
pub fn parse_dec_u32(s: &str) -> (r: Option<u32>)
    ensures
        match r {
            Some(v) => all_digits(s@) && s@.len() >= 1 && v as nat == dec_val(s@),
            None => !(all_digits(s@) && s@.len() >= 1 && dec_val(s@) <= u32::MAX),
        },
{
    let len = s.unicode_len();
    if len == 0 {
        return None;
    }
    let mut acc: u32 = 0;
    let mut i: usize = 0;
    while i < len
        invariant
            0 <= i <= len,
            len == s@.len(),
            all_digits(s@.subrange(0, i as int)),
            acc as nat == dec_val(s@.subrange(0, i as int)),
        decreases len - i,
    {
        let c = s.get_char(i);
        match char_to_digit(c) {
            None => {
                return None;
            },
            Some(d) => {
                proof {
                    assert(s@.subrange(0, i + 1).drop_last() =~= s@.subrange(0, i as int));
                    assert(s@.subrange(0, i + 1).last() == s@[i as int]);
                }
                if acc <= (u32::MAX - d as u32) / 10 {
                    acc = acc * 10 + d as u32;
                } else {
                    proof {
                        let q = (u32::MAX - d) as nat / 10;
                        assert(acc as nat * 10 + d as nat > u32::MAX) by (nonlinear_arith)
                            requires
                                acc as nat >= q + 1,
                                q == (u32::MAX - d) as nat / 10,
                                d as nat <= 9,
                        ;
                        lemma_dec_val_prefix_mono(s@, i + 1, len as int);
                        assert(s@.subrange(0, len as int) =~= s@);
                    }
                    return None;
                }
            },
        }
        i += 1;
    }
    proof {
        assert(s@.subrange(0, len as int) =~= s@);
    }
    Some(acc)
}

/// Parses a hexadecimal string (no prefix, either case) into a `u64`.
pub fn parse_hex_u64(s: &str) -> (r: Option<u64>)
    ensures
        match r {
            Some(v) => all_hex(s@) && s@.len() >= 1 && v as nat == hex_val(s@),
            None => !(all_hex(s@) && s@.len() >= 1 && hex_val(s@) <= u64::MAX),
        },
{
    let len = s.unicode_len();
    if len == 0 {
        return None;
    }
    let mut acc: u64 = 0;
    let mut i: usize = 0;
    while i < len
        invariant
            0 <= i <= len,
            len == s@.len(),
            all_hex(s@.subrange(0, i as int)),
            acc as nat == hex_val(s@.subrange(0, i as int)),
        decreases len - i,
    {
        let c = s.get_char(i);
        match char_to_hex(c) {
            None => {
                return None;
            },
            Some(d) => {
                proof {
                    assert(s@.subrange(0, i + 1).drop_last() =~= s@.subrange(0, i as int));
                    assert(s@.subrange(0, i + 1).last() == s@[i as int]);
                }
                if acc <= (u64::MAX - d as u64) / 16 {
                    acc = acc * 16 + d as u64;
                } else {
                    proof {
                        let q = (u64::MAX - d) as nat / 16;
                        assert(acc as nat * 16 + d as nat > u64::MAX) by (nonlinear_arith)
                            requires
                                acc as nat >= q + 1,
                                q == (u64::MAX - d) as nat / 16,
                                d as nat <= 15,
                        ;
                        lemma_hex_val_prefix_mono(s@, i + 1, len as int);
                        assert(s@.subrange(0, len as int) =~= s@);
                    }
                    return None;
                }
            },
        }
        i += 1;
    }
    proof {
        assert(s@.subrange(0, len as int) =~= s@);
    }
    Some(acc)
}

pub proof fn lemma_hex_val_prefix_mono(s: Seq<char>, i: int, j: int)
    requires
        0 <= i <= j <= s.len(),
    ensures
        hex_val(s.subrange(0, i)) <= hex_val(s.subrange(0, j)),
    decreases j - i,
{
    if i < j {
        lemma_hex_val_prefix_mono(s, i, j - 1);
        assert(s.subrange(0, j).drop_last() =~= s.subrange(0, j - 1));
        assert(hex_val(s.subrange(0, j)) == hex_val(s.subrange(0, j - 1)) * 16 + hex_digit_val(
            s.subrange(0, j).last(),
        ));
    }
}

/// Renders a `u128` in canonical decimal.
pub fn u128_to_string(n: u128) -> (r: String)
    ensures
        r@ == dec_str_of(n as nat),
        canonical_dec(r@),
    decreases n,
{
    proof {
        lemma_dec_str_of(n as nat);
    }
    if n < 10 {
        let mut s = String::new();
        push_char(&mut s, digit_to_char(n as u8));
        s
    } else {
        let mut s = u128_to_string(n / 10);
        push_char(&mut s, digit_to_char((n % 10) as u8));
        s
    }
}

/// Renders a `u32` in canonical decimal.
pub fn u32_to_string(n: u32) -> (r: String)
    ensures
        r@ == dec_str_of(n as nat),
        canonical_dec(r@),
{
    u128_to_string(n as u128)
}

} // verus!

