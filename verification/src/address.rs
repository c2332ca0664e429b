//! A 20-byte account address, parsed from and rendered to hexadecimal text.

use crate::text::{
    all_hex, char_to_hex, hex_char_lower, hex_digit_val, hex_to_char, is_hex_char, push_char,
};
use vstd::prelude::*;

verus! {

/// Strips one leading "0x", if present.
pub open spec fn strip_hex_prefix(s: Seq<char>) -> Seq<char> {
    if s.len() >= 2 && s[0] == '0' && s[1] == 'x' {
        s.skip(2)
    } else {
        s
    }
}

/// A well-formed address string: an optional "0x" prefix followed by exactly
/// 40 hexadecimal digits of either case.
pub open spec fn valid_address_str(s: Seq<char>) -> bool {
    strip_hex_prefix(s).len() == 40 && all_hex(strip_hex_prefix(s))
}

/// The bytes denoted by a well-formed address string, big endian.
pub open spec fn addr_bytes_of(s: Seq<char>) -> Seq<u8> {
    let h = strip_hex_prefix(s);
    Seq::new(20, |i: int| (hex_digit_val(h[2 * i]) * 16 + hex_digit_val(h[2 * i + 1])) as u8)
}

/// The all-zero address.
pub open spec fn zero_addr_bytes() -> Seq<u8> {
    Seq::new(20, |i: int| 0u8)
}

/// The canonical rendering of an address: "0x" then 40 lowercase hex digits.
pub open spec fn addr_display(b: Seq<u8>) -> Seq<char> {
    seq!['0', 'x'] + Seq::new(
        40,
        |i: int|
            hex_char_lower(
                if i % 2 == 0 {
                    (b[i / 2] / 16) as nat
                } else {
                    (b[i / 2] % 16) as nat
                },
            ),
    )
}

/// A 20-byte account address.
#[derive(Debug, PartialEq, Eq)]
pub struct Address {
    bytes: Vec<u8>,
}

impl View for Address {
    type V = Seq<u8>;

    closed spec fn view(&self) -> Seq<u8> {
        self.bytes@
    }
}

impl Address {
    #[verifier::type_invariant]
    closed spec fn inv(self) -> bool {
        self.bytes@.len() == 20
    }

    /// The zero address, used where an operation has no on-chain recipient.
    pub fn zero() -> (r: Address)
        ensures
            r@ == zero_addr_bytes(),
    {
        let mut bytes: Vec<u8> = Vec::new();
        let mut i: usize = 0;
        while i < 20
            invariant
                0 <= i <= 20,
                bytes@.len() == i,
                forall|j: int| 0 <= j < i ==> bytes@[j] == 0u8,
            decreases 20 - i,
        {
            bytes.push(0);
            i += 1;
        }
        proof {
            assert(bytes@ =~= zero_addr_bytes());
        }
        Address { bytes }
    }

    /// Parses an address string: optional "0x", then exactly 40 hex digits.
    pub fn from_hex_str(s: &str) -> (r: Option<Address>)
        ensures
            match r {
                Some(a) => valid_address_str(s@) && a@ == addr_bytes_of(s@),
                None => !valid_address_str(s@),
            },
    {
        let len = s.unicode_len();
        let has_prefix = len >= 2 && s.get_char(0) == '0' && s.get_char(1) == 'x';
        let start: usize = if has_prefix {
            2
        } else {
            0
        };
        proof {
            assert(strip_hex_prefix(s@) =~= s@.skip(start as int));
        }
        if len - start != 40 {
            return None;
        }
        let mut bytes: Vec<u8> = Vec::new();
        let mut i: usize = 0;
        while i < 20
            invariant
                0 <= i <= 20,
                bytes@.len() == i,
                len == s@.len(),
                start + 40 == len,
                strip_hex_prefix(s@) == s@.skip(start as int),
                forall|j: int|
                    0 <= j < 2 * i ==> is_hex_char(#[trigger] s@.skip(start as int)[j]),
                forall|j: int|
                    0 <= j < i ==> bytes@[j] == (hex_digit_val(s@.skip(start as int)[2 * j]) * 16
                        + hex_digit_val(s@.skip(start as int)[2 * j + 1])) as u8,
            decreases 20 - i,
        {
            let c1 = s.get_char(start + 2 * i);
            let c2 = s.get_char(start + 2 * i + 1);
            let d1 = match char_to_hex(c1) {
                Some(d) => d,
                None => {
                    proof {
                        assert(s@.skip(start as int)[2 * i as int] == c1);
                    }
                    return None;
                },
            };
            let d2 = match char_to_hex(c2) {
                Some(d) => d,
                None => {
                    proof {
                        assert(s@.skip(start as int)[2 * i as int + 1] == c2);
                    }
                    return None;
                },
            };
            bytes.push(d1 * 16 + d2);
            proof {
                assert(s@.skip(start as int)[2 * i as int] == c1);
                assert(s@.skip(start as int)[2 * i as int + 1] == c2);
            }
            i += 1;
        }
        proof {
            let h = strip_hex_prefix(s@);
            assert(forall|m: int| 0 <= m < 40 ==> is_hex_char(#[trigger] h[m]));
            assert(bytes@ =~= addr_bytes_of(s@));
        }
        Some(Address { bytes })
    }

    /// An identical copy.
    pub fn dup(&self) -> (r: Address)
        ensures
            r@ == self@,
    {
        proof {
            use_type_invariant(self);
        }
        let bytes = self.bytes.clone();
        proof {
            assert(bytes@ =~= self.bytes@);
        }
        Address { bytes }
    }

    /// Renders the address as "0x" followed by 40 lowercase hex digits.
    pub fn to_hex_string(&self) -> (r: String)
        ensures
            r@ == addr_display(self@),
    {
        proof {
            use_type_invariant(self);
        }
        let mut out = String::new();
        push_char(&mut out, '0');
        push_char(&mut out, 'x');
        let mut i: usize = 0;
        while i < 20
            invariant
                0 <= i <= 20,
                self.bytes@.len() == 20,
                out@.len() == 2 + 2 * i,
                out@ =~= addr_display(self@).take(2 + 2 * i as int),
            decreases 20 - i,
        {
            let byte = self.bytes[i];
            let hi = byte / 16;
            let lo = byte % 16;
            push_char(&mut out, hex_to_char(hi));
            push_char(&mut out, hex_to_char(lo));
            proof {
                assert(addr_display(self@)[2 + 2 * i as int] == hex_char_lower((byte / 16) as nat));
                assert(addr_display(self@)[2 + 2 * i as int + 1] == hex_char_lower(
                    (byte % 16) as nat,
                ));
                assert(out@ =~= addr_display(self@).take(2 + 2 * (i + 1) as int));
            }
            i += 1;
        }
        proof {
            assert(addr_display(self@).take(42) =~= addr_display(self@));
        }
        out
    }
}

/// Parses a string slice into an `Address`; `None` where it is not a
/// well-formed address string.
pub fn to_address_type(str_slice: &str) -> (r: Option<Address>)
    ensures
        match r {
            Some(a) => valid_address_str(str_slice@) && a@ == addr_bytes_of(str_slice@),
            None => !valid_address_str(str_slice@),
        },
{
    Address::from_hex_str(str_slice)
}

} // verus!
