//! Exact unit conversion for ledger output: a base-unit integer string is
//! divided by a power of ten and rendered as a plain decimal string with no
//! trailing fractional zeros — 18 places for ETH, 9 for gwei.

use crate::text::all_digits;
use vstd::prelude::*;

verus! {

/// Zeros used to left-pad short inputs.
pub open spec fn zeros(n: nat) -> Seq<char> {
    Seq::new(n, |i: int| '0')
}

/// Trailing zeros removed.
pub open spec fn trim_trailing_zeros(s: Seq<char>) -> Seq<char>
    decreases s.len(),
{
    if s.len() > 0 && s.last() == '0' {
        trim_trailing_zeros(s.drop_last())
    } else {
        s
    }
}

/// The digit string `s`, read as an integer, divided by 10^shift and written
/// as a plain decimal: an integer part, then a fractional part without
/// trailing zeros, separated by '.' only when the fraction is nonzero.
pub open spec fn shifted_decimal_str(s: Seq<char>, shift: nat) -> Seq<char> {
    let pad = if s.len() >= shift + 1 {
        s
    } else {
        zeros((shift + 1 - s.len()) as nat) + s
    };
    let cut = pad.len() - shift;
    let frac = trim_trailing_zeros(pad.skip(cut as int));
    if frac.len() == 0 {
        pad.take(cut as int)
    } else {
        pad.take(cut as int) + seq!['.'] + frac
    }
}

/// A suffix of zeros is exactly what trimming removes.
proof fn lemma_trim_suffix(s: Seq<char>, m: int)
    requires
        0 <= m <= s.len(),
        forall|j: int| m <= j < s.len() ==> s[j] == '0',
        m > 0 ==> s[m - 1] != '0',
    ensures
        trim_trailing_zeros(s) == s.take(m),
    decreases s.len(),
{
    if m < s.len() {
        assert(s.last() == '0');
        lemma_trim_suffix(s.drop_last(), m);
        assert(s.drop_last().take(m) =~= s.take(m));
    } else {
        if s.len() > 0 {
            assert(s.last() != '0');
        }
        assert(s.take(m) =~= s);
    }
}

/// Divides a digit string by 10^shift, rendering the exact decimal result.
pub fn shift_decimal_string(s: &str, shift: usize) -> (r: String)
    requires
        all_digits(s@),
        s@.len() >= 1,
        shift <= 18,
    ensures
        r@ == shifted_decimal_str(s@, shift as nat),
{
    proof {
        assert(forall|j: int| 0 <= j < s@.len() ==> '\0' <= #[trigger] s@[j] <= '\u{7f}') by {
            assert(forall|j: int|
                0 <= j < s@.len() ==> crate::text::is_digit_char(#[trigger] s@[j]));
        }
    }
    let len = s.unicode_len();
    let mut pad = String::new();
    let mut i: usize = 0;
    let need: usize = if len >= shift + 1 {
        0
    } else {
        shift + 1 - len
    };
    while i < need
        invariant
            0 <= i <= need,
            pad@ =~= zeros(i as nat),
        decreases need - i,
    {
        crate::text::push_char(&mut pad, '0');
        proof {
            assert(pad@ =~= zeros((i + 1) as nat));
        }
        i += 1;
    }
    pad.append(s);
    let padlen = need + len;
    proof {
        if need == 0 {
            assert(pad@ =~= s@);
        } else {
            assert(pad@ =~= zeros(need as nat) + s@);
        }
        assert(forall|j: int|
            0 <= j < pad@.len() ==> crate::text::is_digit_char(#[trigger] pad@[j]));
        assert(forall|j: int| 0 <= j < pad@.len() ==> '\0' <= #[trigger] pad@[j] <= '\u{7f}');
    }
    let cut = padlen - shift;
    let mut e = padlen;
    while e > cut && pad.as_str().get_char(e - 1) == '0'
        invariant
            cut <= e <= padlen,
            padlen == pad@.len(),
            cut == padlen - shift,
            forall|j: int| e <= j < padlen ==> pad@[j] == '0',
        decreases e,
    {
        e -= 1;
    }
    let int_part = pad.as_str().substring_ascii(0, cut);
    let frac_part = pad.as_str().substring_ascii(cut, e);
    let mut out = int_part.to_owned();
    proof {
        let pv = pad@;
        let fr = pv.skip(cut as int);
        assert(fr.len() == shift);
        assert(forall|j: int| (e - cut) <= j < fr.len() ==> fr[j] == '0') by {
            assert(forall|j: int| e <= j < padlen ==> pv[j] == '0');
        }
        if e > cut {
            assert(fr[e - cut - 1] == pv[e as int - 1]);
        }
        lemma_trim_suffix(fr, e - cut as int);
        assert(fr.take(e - cut as int) =~= pv.subrange(cut as int, e as int));
        assert(frac_part@ == pv.subrange(cut as int, e as int));
    }
    if e > cut {
        crate::text::push_char(&mut out, '.');
        out.append(frac_part);
        proof {
            assert(out@ =~= pad@.take(cut as int) + seq!['.'] + trim_trailing_zeros(
                pad@.skip(cut as int),
            ));
        }
    } else {
        proof {
            assert(trim_trailing_zeros(pad@.skip(cut as int)).len() == 0);
        }
    }
    out
}

/// Converts a base-unit (wei) decimal string to the exact ETH decimal string.
pub fn str_wei_to_eth(wei: &str) -> (r: String)
    requires
        all_digits(wei@),
        wei@.len() >= 1,
    ensures
        r@ == shifted_decimal_str(wei@, 18),
{
    shift_decimal_string(wei, 18)
}

/// Converts a base-unit (wei) decimal string to the exact gwei decimal string.
pub fn str_wei_to_gwei(wei: &str) -> (r: String)
    requires
        all_digits(wei@),
        wei@.len() >= 1,
    ensures
        r@ == shifted_decimal_str(wei@, 9),
{
    shift_decimal_string(wei, 9)
}

} // verus!
