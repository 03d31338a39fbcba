//! Small verified text utilities: character-level string equality, decimal
//! and fixed-width uppercase-hex formatting, and a trusted one-character
//! append on `String`.

use vstd::prelude::*;
use vstd::string::StrSliceExecFns;
use vstd::string::StringExecFns;

verus! {

/// Relies on `String::push` from std: appends exactly one character to the
/// end of the string.
#[verifier::external_body]
pub(crate) fn string_push(s: &mut String, c: char)
    ensures
        final(s)@ == old(s)@.push(c),
{
    s.push(c);
}

/// Character-for-character string equality (`r` holds exactly when the two
/// views are the same character sequence).
pub fn str_eq_chars(a: &str, b: &str) -> (r: bool)
    ensures
        r == (a@ == b@),
{
    let alen = a.unicode_len();
    let blen = b.unicode_len();
    if alen != blen {
        return false;
    }
    let mut i: usize = 0;
    while i < alen
        invariant
            alen == a@.len(),
            blen == b@.len(),
            alen == blen,
            i <= alen,
            forall|j: int| 0 <= j < i ==> a@[j] == b@[j],
        decreases alen - i,
    {
        if a.get_char(i) != b.get_char(i) {
            return false;
        }
        i = i + 1;
    }
    proof {
        assert(a@ =~= b@);
    }
    true
}

/// The uppercase hexadecimal digit for a value below 16.
pub open spec fn spec_hex_digit(n: int) -> char {
    if n == 0 {
        '0'
    } else if n == 1 {
        '1'
    } else if n == 2 {
        '2'
    } else if n == 3 {
        '3'
    } else if n == 4 {
        '4'
    } else if n == 5 {
        '5'
    } else if n == 6 {
        '6'
    } else if n == 7 {
        '7'
    } else if n == 8 {
        '8'
    } else if n == 9 {
        '9'
    } else if n == 10 {
        'A'
    } else if n == 11 {
        'B'
    } else if n == 12 {
        'C'
    } else if n == 13 {
        'D'
    } else if n == 14 {
        'E'
    } else {
        'F'
    }
}

fn hex_digit(n: u8) -> (c: char)
    requires
        n < 16,
    ensures
        c == spec_hex_digit(n as int),
{
    if n == 0 {
        '0'
    } else if n == 1 {
        '1'
    } else if n == 2 {
        '2'
    } else if n == 3 {
        '3'
    } else if n == 4 {
        '4'
    } else if n == 5 {
        '5'
    } else if n == 6 {
        '6'
    } else if n == 7 {
        '7'
    } else if n == 8 {
        '8'
    } else if n == 9 {
        '9'
    } else if n == 10 {
        'A'
    } else if n == 11 {
        'B'
    } else if n == 12 {
        'C'
    } else if n == 13 {
        'D'
    } else if n == 14 {
        'E'
    } else {
        'F'
    }
}

/// Two uppercase hex digits of a byte, most significant first.
pub open spec fn spec_hex2(n: u8) -> Seq<char> {
    seq![spec_hex_digit(n as int / 16), spec_hex_digit(n as int % 16)]
}

/// Four uppercase hex digits of a 16-bit value, most significant first.
pub open spec fn spec_hex4(n: u16) -> Seq<char> {
    seq![
        spec_hex_digit(n as int / 4096),
        spec_hex_digit((n as int / 256) % 16),
        spec_hex_digit((n as int / 16) % 16),
        spec_hex_digit(n as int % 16),
    ]
}

/// Appends the two-digit uppercase hex form of `n` to `out`.
pub fn push_hex2(out: &mut String, n: u8)
    ensures
        final(out)@ == old(out)@ + spec_hex2(n),
{
    string_push(out, hex_digit(n / 16));
    string_push(out, hex_digit(n % 16));
    proof {
        assert(final(out)@ =~= old(out)@ + spec_hex2(n));
    }
}

/// Appends the four-digit uppercase hex form of `n` to `out`.
pub fn push_hex4(out: &mut String, n: u16)
    ensures
        final(out)@ == old(out)@ + spec_hex4(n),
{
    string_push(out, hex_digit((n / 4096) as u8));
    string_push(out, hex_digit(((n / 256) % 16) as u8));
    string_push(out, hex_digit(((n / 16) % 16) as u8));
    string_push(out, hex_digit((n % 16) as u8));
    proof {
        assert(final(out)@ =~= old(out)@ + spec_hex4(n));
    }
}

/// The decimal digit character for a value below 10.
pub open spec fn spec_dec_digit(n: int) -> char {
    spec_hex_digit(if 0 <= n < 10 {
        n
    } else {
        0
    })
}

/// The decimal form of a natural number, without leading zeros
/// (`0` is written as `"0"`).
pub open spec fn spec_dec(n: nat) -> Seq<char>
    decreases n,
{
    if n < 10 {
        seq![spec_dec_digit(n as int)]
    } else {
        spec_dec(n / 10) + seq![spec_dec_digit(n as int % 10)]
    }
}

/// Appends the decimal form of `n` to `out`.
pub fn push_dec(out: &mut String, n: u64)
    ensures
        final(out)@ == old(out)@ + spec_dec(n as nat),
    decreases n,
{
    if n < 10 {
        string_push(out, hex_digit(n as u8));
        proof {
            assert(final(out)@ =~= old(out)@ + spec_dec(n as nat));
        }
    } else {
        push_dec(out, n / 10);
        string_push(out, hex_digit((n % 10) as u8));
        proof {
            assert(final(out)@ =~= old(out)@ + spec_dec(n as nat));
        }
    }
}

/// The decimal form of `n`, left-padded with zeros to at least `width`
/// characters.
pub open spec fn spec_dec_pad(n: nat, width: nat) -> Seq<char> {
    let plain = spec_dec(n);
    if plain.len() >= width {
        plain
    } else {
        spec_zeros((width - plain.len()) as nat) + plain
    }
}

/// A run of `k` zero characters.
pub open spec fn spec_zeros(k: nat) -> Seq<char>
    decreases k,
{
    if k == 0 {
        seq![]
    } else {
        spec_zeros((k - 1) as nat).push('0')
    }
}

/// Appends the decimal form of `n`, left-padded with zeros to at least
/// `width` characters.
pub fn push_dec_pad(out: &mut String, n: u64, width: usize)
    requires
        width <= 100,
    ensures
        final(out)@ == old(out)@ + spec_dec_pad(n as nat, width as nat),
{
    let mut plain = String::new();
    push_dec(&mut plain, n);
    let digits = plain.as_str().unicode_len();
    let mut pad: usize = 0;
    if digits < width {
        pad = width - digits;
    }
    let mut k: usize = 0;
    while k < pad
        invariant
            k <= pad,
            out@ == old(out)@ + spec_zeros(k as nat),
        decreases pad - k,
    {
        string_push(out, '0');
        k = k + 1;
    }
    out.append(plain.as_str());
    proof {
        assert(final(out)@ =~= old(out)@ + spec_dec_pad(n as nat, width as nat));
    }
}

} // verus!
