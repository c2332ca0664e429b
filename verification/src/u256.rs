//! An unsigned 256-bit integer, carried as its canonical decimal rendering.
//! The pipeline never computes with these amounts; it validates, transports
//! and re-renders them, so the decimal form is the natural representation.

use crate::text::{
    all_digits, canonical_dec, char_to_digit, dec_str_of, dec_val, digit_val, is_digit_char,
    lemma_canonical_unique, lemma_dec_str_of, lemma_dec_val_prefix_mono, lemma_dec_val_skip_zeros,
    push_char, u128_to_string,
};
use vstd::prelude::*;

verus! {

/// 2^256, the first value too large for an unsigned 256-bit integer.
pub open spec fn u256_limit() -> nat {
    0x10000000000000000000000000000000000000000000000000000000000000000nat
}

/// An unsigned 256-bit integer value.
#[derive(Debug, PartialEq, Eq)]
pub struct U256 {
    digits: String,
}

impl View for U256 {
    type V = nat;

    closed spec fn view(&self) -> nat {
        dec_val(self.digits@)
    }
}

impl U256 {
    #[verifier::type_invariant]
    closed spec fn inv(self) -> bool {
        canonical_dec(self.digits@) && dec_val(self.digits@) < u256_limit()
    }

    /// The zero value.
    pub fn zero() -> (r: U256)
        ensures
            r@ == 0,
    {
        let mut s = String::new();
        push_char(&mut s, '0');
        proof {
            assert(s@ =~= seq!['0']);
            assert(s@.drop_last() =~= Seq::<char>::empty());
            assert(dec_val(s@) == dec_val(Seq::<char>::empty()) * 10 + digit_val('0'));
            assert('0' as int == 48);
            assert(is_digit_char('0'));
        }
        U256 { digits: s }
    }

    /// Parses a decimal string. Accepts digits only (leading zeros allowed,
    /// the empty string counts as zero) and rejects any value of 2^256 or
    /// more, exactly as an unsigned 256-bit parse must.
    pub fn from_dec_str(s: &str) -> (r: Option<U256>)
        ensures
            match r {
                Some(v) => all_digits(s@) && dec_val(s@) < u256_limit() && v@ == dec_val(s@),
                None => !(all_digits(s@) && dec_val(s@) < u256_limit()),
            },
    {
        let len = s.unicode_len();
        let mut l0: u64 = 0;
        let mut l1: u64 = 0;
        let mut l2: u64 = 0;
        let mut l3: u64 = 0;
        let mut i: usize = 0;
        while i < len
            invariant
                0 <= i <= len,
                len == s@.len(),
                all_digits(s@.subrange(0, i as int)),
                limbs_val(l0, l1, l2, l3) == dec_val(s@.subrange(0, i as int)),
            decreases len - i,
        {
            let c = s.get_char(i);
            match char_to_digit(c) {
                None => {
                    return None;
                },
                Some(d) => {
                    proof {
                        assert(s@.subrange(0, i + 1).drop_last() =~= s@.subrange(0, i as int));
                        assert(s@.subrange(0, i + 1).last() == s@[i as int]);
                    }
                    let b: u128 = 0x10000000000000000;
                    let p0: u128 = l0 as u128 * 10 + d as u128;
                    let n0: u64 = (p0 % b) as u64;
                    let c0: u64 = (p0 / b) as u64;
                    let p1: u128 = l1 as u128 * 10 + c0 as u128;
                    let n1: u64 = (p1 % b) as u64;
                    let c1: u64 = (p1 / b) as u64;
                    let p2: u128 = l2 as u128 * 10 + c1 as u128;
                    let n2: u64 = (p2 % b) as u64;
                    let c2: u64 = (p2 / b) as u64;
                    let p3: u128 = l3 as u128 * 10 + c2 as u128;
                    let n3: u64 = (p3 % b) as u64;
                    let c3: u64 = (p3 / b) as u64;
                    proof {
                        assert(p0 == c0 * b + n0);
                        assert(p1 == c1 * b + n1);
                        assert(p2 == c2 * b + n2);
                        assert(p3 == c3 * b + n3);
                        assert(limbs_val(l0, l1, l2, l3) * 10 + d == limbs_val(n0, n1, n2, n3)
                            + c3 * u256_limit());
                        assert(dec_val(s@.subrange(0, i + 1)) == dec_val(s@.subrange(0, i as int))
                            * 10 + digit_val(s@[i as int]));
                    }
                    if c3 != 0 {
                        proof {
                            assert(dec_val(s@.subrange(0, i + 1)) >= u256_limit());
                            lemma_dec_val_prefix_mono(s@, i + 1, len as int);
                            assert(s@.subrange(0, len as int) =~= s@);
                        }
                        return None;
                    }
                    l0 = n0;
                    l1 = n1;
                    l2 = n2;
                    l3 = n3;
                },
            }
            i += 1;
        }
        proof {
            assert(s@.subrange(0, len as int) =~= s@);
            assert(limbs_val(l0, l1, l2, l3) < u256_limit());
        }
        // The value fits; store the digits with leading zeros stripped.
        let mut k: usize = 0;
        while k < len && s.get_char(k) == '0'
            invariant
                0 <= k <= len,
                len == s@.len(),
                forall|j: int| 0 <= j < k ==> s@[j] == '0',
            decreases len - k,
        {
            k += 1;
        }
        proof {
            lemma_dec_val_skip_zeros(s@, k as int);
        }
        if k == len {
            let z = U256::zero();
            proof {
                assert(s@.skip(len as int) =~= Seq::<char>::empty());
            }
            Some(z)
        } else {
            proof {
                assert(vstd::string::is_ascii(s)) by {
                    assert(forall|j: int|
                        0 <= j < s@.len() ==> '\0' <= #[trigger] s@[j] <= '\u{7f}') by {
                        assert(forall|j: int| 0 <= j < s@.len() ==> is_digit_char(#[trigger] s@[j]));
                    }
                }
            }
            let sub = s.substring_ascii(k, len);
            let digits = sub.to_owned();
            proof {
                assert(digits@ =~= s@.skip(k as int));
                assert(digits@[0] == s@[k as int]);
                assert(s@[k as int] != '0');
                assert(forall|j: int|
                    0 <= j < digits@.len() ==> is_digit_char(#[trigger] digits@[j])) by {
                    assert(forall|j: int|
                        0 <= j < digits@.len() ==> digits@[j] == s@[j + k]);
                }
            }
            Some(U256 { digits })
        }
    }

    /// Conversion from a `u128`; every such value fits.
    pub fn from_u128(n: u128) -> (r: U256)
        ensures
            r@ == n as nat,
    {
        let digits = u128_to_string(n);
        proof {
            lemma_dec_str_of(n as nat);
        }
        U256 { digits }
    }

    /// An identical copy.
    pub fn dup(&self) -> (r: U256)
        ensures
            r@ == self@,
    {
        proof {
            use_type_invariant(self);
        }
        U256 { digits: self.digits.clone() }
    }

    /// The canonical decimal rendering of the value.
    pub fn to_dec_string(&self) -> (r: String)
        ensures
            r@ == dec_str_of(self@),
            canonical_dec(r@),
            dec_val(r@) == self@,
    {
        proof {
            use_type_invariant(self);
            lemma_canonical_unique(self.digits@);
        }
        self.digits.clone()
    }

}

/// The value carried by four 64-bit limbs, least significant first.
spec fn limbs_val(l0: u64, l1: u64, l2: u64, l3: u64) -> nat {
    l0 as nat + l1 as nat * 0x10000000000000000nat + l2 as nat
        * 0x100000000000000000000000000000000nat + l3 as nat
        * 0x1000000000000000000000000000000000000000000000000nat
}

/// Conversion from a `u128` amount, as the chain client hands balances over.
pub fn to_u256(amount: u128) -> (r: U256)
    ensures
        r@ == amount as nat,
{
    U256::from_u128(amount)
}

/// Parses a decimal string into a `U256`, with the failure as an error value.
pub fn parse_u256(s: &str) -> (r: Result<U256, String>)
    ensures
        match r {
            Ok(v) => all_digits(s@) && dec_val(s@) < u256_limit() && v@ == dec_val(s@),
            Err(_) => !(all_digits(s@) && dec_val(s@) < u256_limit()),
        },
{
    match U256::from_dec_str(s) {
        Some(v) => Ok(v),
        None => Err(String::from_str("not a valid unsigned 256-bit decimal string")),
    }
}

} // verus!
