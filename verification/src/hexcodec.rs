//! Hexadecimal byte strings: what a valid hex string is, which bytes it
//! denotes, and a trusted wrapper around the `hex` crate's decoder.

use vstd::prelude::*;

verus! {

/// The value of a hexadecimal digit character, or -1 for any other
/// character. Both cases of the letters are accepted.
pub open spec fn spec_hex_val(c: char) -> int {
    let u = c as u32;
    if 48 <= u <= 57 {
        u - 48
    } else if 65 <= u <= 70 {
        u - 55
    } else if 97 <= u <= 102 {
        u - 87
    } else {
        -1
    }
}

/// Whether `c` is a hexadecimal digit.
pub open spec fn spec_is_hex_digit(c: char) -> bool {
    spec_hex_val(c) >= 0
}

/// A valid hex byte string: an even number of hexadecimal digits.
pub open spec fn spec_valid_hex(s: Seq<char>) -> bool {
    &&& s.len() % 2 == 0
    &&& forall|i: int| 0 <= i < s.len() ==> spec_is_hex_digit(#[trigger] s[i])
}

/// The bytes denoted by a valid hex string, one byte per digit pair, most
/// significant digit first.
pub open spec fn spec_hex_bytes(s: Seq<char>) -> Seq<u8> {
    Seq::new(s.len() / 2, |i: int| (spec_hex_val(s[2 * i]) * 16 + spec_hex_val(s[2 * i + 1])) as u8)
}

/// Relies on `hex::decode` (hex crate): decoding succeeds exactly when the
/// input is an even number of hexadecimal digits (either letter case), and
/// then yields one byte per digit pair, most significant digit first; any
/// other input is an error, which is mapped to `None` here.
#[verifier::external_body]
pub(crate) fn hex_decode(s: &str) -> (r: Option<Vec<u8>>)
    ensures
        r is Some <==> spec_valid_hex(s@),
        r matches Some(v) ==> v@ == spec_hex_bytes(s@),
{
    match hex::decode(s) {
        Ok(v) => Some(v),
        Err(_) => None,
    }
}

} // verus!
