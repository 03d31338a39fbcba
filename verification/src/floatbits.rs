//! A model of IEEE-754 binary64 (and binary32) values as integer bit
//! patterns.
//!
//! Measurements travel through the pipeline as the `u64` bit pattern of the
//! double they denote, so everything that inspects a measurement — sentinel
//! detection, NaN/infinity clamping, threshold comparison, and the exact
//! conversions from register bytes — is ordinary verified integer
//! arithmetic. The two operations that genuinely round (decimal parsing and
//! the calibration multiply-add) are not modelled here; callers perform them
//! and feed the resulting bit patterns back in.
//!
//! Layout of a binary64 pattern: sign is the high bit, then an 11-bit
//! exponent field, then a 52-bit fraction field. The pattern is NaN when the
//! exponent field is all ones and the fraction is non-zero, infinite when
//! the fraction is zero.

use vstd::prelude::*;

verus! {

/// Bit pattern of the double `-127.0`, the disconnected-probe sentinel.
pub const DISCONNECT_BITS: u64 = 0xC05F_C000_0000_0000;

/// Bit pattern of the double `9999.0`, the unreadable/timeout sentinel.
pub const TIMEOUT_BITS: u64 = 0x40C3_8780_0000_0000;

/// The sign bit of a binary64 pattern.
pub open spec fn f64_sign(b: u64) -> bool {
    b >= 0x8000_0000_0000_0000
}

/// The pattern with the sign bit cleared (exponent and fraction fields).
pub open spec fn f64_abs(b: u64) -> u64 {
    (b % 0x8000_0000_0000_0000) as u64
}

/// The pattern denotes a NaN.
pub open spec fn f64_is_nan(b: u64) -> bool {
    f64_abs(b) > 0x7FF0_0000_0000_0000
}

/// The pattern denotes positive or negative infinity.
pub open spec fn f64_is_infinite(b: u64) -> bool {
    f64_abs(b) == 0x7FF0_0000_0000_0000
}

/// The pattern denotes a zero (of either sign).
pub open spec fn f64_is_zero(b: u64) -> bool {
    f64_abs(b) == 0
}

/// IEEE equality of the two denoted doubles: false when either is NaN,
/// true for `+0 == -0`, and otherwise exactly when the patterns agree
/// (each non-zero finite or infinite double has a unique pattern).
pub open spec fn f64_eq(a: u64, b: u64) -> bool {
    &&& !f64_is_nan(a)
    &&& !f64_is_nan(b)
    &&& (a == b || (f64_is_zero(a) && f64_is_zero(b)))
}

/// IEEE `a < b` on the denoted doubles: false when either is NaN;
/// otherwise ordered by sign, then by magnitude (the exponent and fraction
/// fields of same-signed patterns compare like their magnitudes).
pub open spec fn f64_lt(a: u64, b: u64) -> bool {
    &&& !f64_is_nan(a)
    &&& !f64_is_nan(b)
    &&& if f64_is_zero(a) && f64_is_zero(b) {
        false
    } else if f64_sign(a) && !f64_sign(b) {
        true
    } else if !f64_sign(a) && f64_sign(b) {
        false
    } else if !f64_sign(a) {
        f64_abs(a) < f64_abs(b)
    } else {
        f64_abs(a) > f64_abs(b)
    }
}

/// IEEE `a > b` on the denoted doubles.
pub open spec fn f64_gt(a: u64, b: u64) -> bool {
    f64_lt(b, a)
}

/// IEEE `a <= b` on the denoted doubles (false when either is NaN).
pub open spec fn f64_le(a: u64, b: u64) -> bool {
    f64_lt(a, b) || f64_eq(a, b)
}

/// IEEE `a >= b` on the denoted doubles (false when either is NaN).
pub open spec fn f64_ge(a: u64, b: u64) -> bool {
    f64_gt(a, b) || f64_eq(a, b)
}

/// The pattern with the sign bit cleared.
fn abs_bits(b: u64) -> (r: u64)
    ensures
        r == f64_abs(b),
{
    b % 0x8000_0000_0000_0000
}

/// Whether the pattern denotes a NaN or an infinity.
pub fn f64_bits_nan_or_infinite(b: u64) -> (r: bool)
    ensures
        r == (f64_is_nan(b) || f64_is_infinite(b)),
{
    abs_bits(b) >= 0x7FF0_0000_0000_0000
}

/// Whether the two patterns denote IEEE-equal doubles.
pub fn f64_bits_eq(a: u64, b: u64) -> (r: bool)
    ensures
        r == f64_eq(a, b),
{
    let aa = abs_bits(a);
    let ba = abs_bits(b);
    if aa > 0x7FF0_0000_0000_0000 || ba > 0x7FF0_0000_0000_0000 {
        false
    } else {
        a == b || (aa == 0 && ba == 0)
    }
}

/// Whether the first pattern denotes a double IEEE-less than the second.
pub fn f64_bits_lt(a: u64, b: u64) -> (r: bool)
    ensures
        r == f64_lt(a, b),
{
    let aa = abs_bits(a);
    let ba = abs_bits(b);
    if aa > 0x7FF0_0000_0000_0000 || ba > 0x7FF0_0000_0000_0000 {
        false
    } else if aa == 0 && ba == 0 {
        false
    } else {
        let sa = a >= 0x8000_0000_0000_0000;
        let sb = b >= 0x8000_0000_0000_0000;
        if sa && !sb {
            true
        } else if !sa && sb {
            false
        } else if !sa {
            aa < ba
        } else {
            aa > ba
        }
    }
}

/// The comparison operator codes of an alarm rule: equal, less-than,
/// greater-than, less-or-equal, greater-or-equal. Any other code never
/// matches.
pub open spec fn spec_cmp_op(op: u32, a: u64, b: u64) -> bool {
    if op == 0 {
        f64_eq(a, b)
    } else if op == 1 {
        f64_lt(a, b)
    } else if op == 2 {
        f64_gt(a, b)
    } else if op == 3 {
        f64_le(a, b)
    } else if op == 4 {
        f64_ge(a, b)
    } else {
        false
    }
}

/// Evaluates comparison operator `op` on the doubles denoted by `a` and `b`.
pub fn f64_bits_cmp_op(op: u32, a: u64, b: u64) -> (r: bool)
    ensures
        r == spec_cmp_op(op, a, b),
{
    if op == 0 {
        f64_bits_eq(a, b)
    } else if op == 1 {
        f64_bits_lt(a, b)
    } else if op == 2 {
        f64_bits_lt(b, a)
    } else if op == 3 {
        f64_bits_lt(a, b) || f64_bits_eq(a, b)
    } else if op == 4 {
        f64_bits_lt(b, a) || f64_bits_eq(a, b)
    } else {
        false
    }
}

/// One normalized encoding case: exponent field contribution `expb`, the
/// leading power of two `sub`, and the fraction scale `mult == 2^(52 - p)`
/// where `sub == 2^p`.
pub open spec fn spec_norm_case(n: int, expb: int, sub: int, mult: int) -> int {
    expb + (n - sub) * mult
}

/// The binary64 pattern that denotes exactly the integer `n` (every `u16`
/// is exactly representable). Case split on the leading power of two of
/// `n`; in each case the exponent field is `1023 + p` and the fraction
/// field is `(n - 2^p) * 2^(52 - p)`.
pub open spec fn spec_f64_of_u16(n: u16) -> u64 {
    let v = n as int;
    (if v == 0 {
        0
    } else if v < 0x2 {
        spec_norm_case(v, 0x3FF0_0000_0000_0000, 0x1, 0x10_0000_0000_0000)
    } else if v < 0x4 {
        spec_norm_case(v, 0x4000_0000_0000_0000, 0x2, 0x8_0000_0000_0000)
    } else if v < 0x8 {
        spec_norm_case(v, 0x4010_0000_0000_0000, 0x4, 0x4_0000_0000_0000)
    } else if v < 0x10 {
        spec_norm_case(v, 0x4020_0000_0000_0000, 0x8, 0x2_0000_0000_0000)
    } else if v < 0x20 {
        spec_norm_case(v, 0x4030_0000_0000_0000, 0x10, 0x1_0000_0000_0000)
    } else if v < 0x40 {
        spec_norm_case(v, 0x4040_0000_0000_0000, 0x20, 0x8000_0000_0000)
    } else if v < 0x80 {
        spec_norm_case(v, 0x4050_0000_0000_0000, 0x40, 0x4000_0000_0000)
    } else if v < 0x100 {
        spec_norm_case(v, 0x4060_0000_0000_0000, 0x80, 0x2000_0000_0000)
    } else if v < 0x200 {
        spec_norm_case(v, 0x4070_0000_0000_0000, 0x100, 0x1000_0000_0000)
    } else if v < 0x400 {
        spec_norm_case(v, 0x4080_0000_0000_0000, 0x200, 0x800_0000_0000)
    } else if v < 0x800 {
        spec_norm_case(v, 0x4090_0000_0000_0000, 0x400, 0x400_0000_0000)
    } else if v < 0x1000 {
        spec_norm_case(v, 0x40A0_0000_0000_0000, 0x800, 0x200_0000_0000)
    } else if v < 0x2000 {
        spec_norm_case(v, 0x40B0_0000_0000_0000, 0x1000, 0x100_0000_0000)
    } else if v < 0x4000 {
        spec_norm_case(v, 0x40C0_0000_0000_0000, 0x2000, 0x80_0000_0000)
    } else if v < 0x8000 {
        spec_norm_case(v, 0x40D0_0000_0000_0000, 0x4000, 0x40_0000_0000)
    } else {
        spec_norm_case(v, 0x40E0_0000_0000_0000, 0x8000, 0x20_0000_0000)
    }) as u64
}

/// One normalized encoding case, executable side.
fn norm_case(n: u64, expb: u64, sub: u64, mult: u64) -> (r: u64)
    requires
        sub <= n,
        (n - sub) * mult + expb < 0x1_0000_0000_0000_0000,
    ensures
        r == spec_norm_case(n as int, expb as int, sub as int, mult as int),
{
    expb + (n - sub) * mult
}

/// The binary64 pattern denoting exactly the integer `n`.
pub fn f64_bits_of_u16(n: u16) -> (r: u64)
    ensures
        r == spec_f64_of_u16(n),
{
    let v = n as u64;
    if v == 0 {
        0
    } else if v < 0x2 {
        norm_case(v, 0x3FF0_0000_0000_0000, 0x1, 0x10_0000_0000_0000)
    } else if v < 0x4 {
        norm_case(v, 0x4000_0000_0000_0000, 0x2, 0x8_0000_0000_0000)
    } else if v < 0x8 {
        norm_case(v, 0x4010_0000_0000_0000, 0x4, 0x4_0000_0000_0000)
    } else if v < 0x10 {
        norm_case(v, 0x4020_0000_0000_0000, 0x8, 0x2_0000_0000_0000)
    } else if v < 0x20 {
        norm_case(v, 0x4030_0000_0000_0000, 0x10, 0x1_0000_0000_0000)
    } else if v < 0x40 {
        norm_case(v, 0x4040_0000_0000_0000, 0x20, 0x8000_0000_0000)
    } else if v < 0x80 {
        norm_case(v, 0x4050_0000_0000_0000, 0x40, 0x4000_0000_0000)
    } else if v < 0x100 {
        norm_case(v, 0x4060_0000_0000_0000, 0x80, 0x2000_0000_0000)
    } else if v < 0x200 {
        norm_case(v, 0x4070_0000_0000_0000, 0x100, 0x1000_0000_0000)
    } else if v < 0x400 {
        norm_case(v, 0x4080_0000_0000_0000, 0x200, 0x800_0000_0000)
    } else if v < 0x800 {
        norm_case(v, 0x4090_0000_0000_0000, 0x400, 0x400_0000_0000)
    } else if v < 0x1000 {
        norm_case(v, 0x40A0_0000_0000_0000, 0x800, 0x200_0000_0000)
    } else if v < 0x2000 {
        norm_case(v, 0x40B0_0000_0000_0000, 0x1000, 0x100_0000_0000)
    } else if v < 0x4000 {
        norm_case(v, 0x40C0_0000_0000_0000, 0x2000, 0x80_0000_0000)
    } else if v < 0x8000 {
        norm_case(v, 0x40D0_0000_0000_0000, 0x4000, 0x40_0000_0000)
    } else {
        norm_case(v, 0x40E0_0000_0000_0000, 0x8000, 0x20_0000_0000)
    }
}

/// The binary64 pattern of the value of a binary32 subnormal with fraction
/// field `frac` (the value `frac * 2^-149`, which is a normal binary64).
/// Case split on the leading power of two `2^p` of `frac`; the binary64
/// exponent field is `874 + p` and the fraction field `(frac - 2^p) *
/// 2^(52 - p)`.
pub open spec fn spec_f64_of_f32_subnormal(frac: int) -> int {
    if frac < 0x2 {
        spec_norm_case(frac, 0x36A0_0000_0000_0000, 0x1, 0x10_0000_0000_0000)
    } else if frac < 0x4 {
        spec_norm_case(frac, 0x36B0_0000_0000_0000, 0x2, 0x8_0000_0000_0000)
    } else if frac < 0x8 {
        spec_norm_case(frac, 0x36C0_0000_0000_0000, 0x4, 0x4_0000_0000_0000)
    } else if frac < 0x10 {
        spec_norm_case(frac, 0x36D0_0000_0000_0000, 0x8, 0x2_0000_0000_0000)
    } else if frac < 0x20 {
        spec_norm_case(frac, 0x36E0_0000_0000_0000, 0x10, 0x1_0000_0000_0000)
    } else if frac < 0x40 {
        spec_norm_case(frac, 0x36F0_0000_0000_0000, 0x20, 0x8000_0000_0000)
    } else if frac < 0x80 {
        spec_norm_case(frac, 0x3700_0000_0000_0000, 0x40, 0x4000_0000_0000)
    } else if frac < 0x100 {
        spec_norm_case(frac, 0x3710_0000_0000_0000, 0x80, 0x2000_0000_0000)
    } else if frac < 0x200 {
        spec_norm_case(frac, 0x3720_0000_0000_0000, 0x100, 0x1000_0000_0000)
    } else if frac < 0x400 {
        spec_norm_case(frac, 0x3730_0000_0000_0000, 0x200, 0x800_0000_0000)
    } else if frac < 0x800 {
        spec_norm_case(frac, 0x3740_0000_0000_0000, 0x400, 0x400_0000_0000)
    } else if frac < 0x1000 {
        spec_norm_case(frac, 0x3750_0000_0000_0000, 0x800, 0x200_0000_0000)
    } else if frac < 0x2000 {
        spec_norm_case(frac, 0x3760_0000_0000_0000, 0x1000, 0x100_0000_0000)
    } else if frac < 0x4000 {
        spec_norm_case(frac, 0x3770_0000_0000_0000, 0x2000, 0x80_0000_0000)
    } else if frac < 0x8000 {
        spec_norm_case(frac, 0x3780_0000_0000_0000, 0x4000, 0x40_0000_0000)
    } else if frac < 0x1_0000 {
        spec_norm_case(frac, 0x3790_0000_0000_0000, 0x8000, 0x20_0000_0000)
    } else if frac < 0x2_0000 {
        spec_norm_case(frac, 0x37A0_0000_0000_0000, 0x1_0000, 0x10_0000_0000)
    } else if frac < 0x4_0000 {
        spec_norm_case(frac, 0x37B0_0000_0000_0000, 0x2_0000, 0x8_0000_0000)
    } else if frac < 0x8_0000 {
        spec_norm_case(frac, 0x37C0_0000_0000_0000, 0x4_0000, 0x4_0000_0000)
    } else if frac < 0x10_0000 {
        spec_norm_case(frac, 0x37D0_0000_0000_0000, 0x8_0000, 0x2_0000_0000)
    } else if frac < 0x20_0000 {
        spec_norm_case(frac, 0x37E0_0000_0000_0000, 0x10_0000, 0x1_0000_0000)
    } else if frac < 0x40_0000 {
        spec_norm_case(frac, 0x37F0_0000_0000_0000, 0x20_0000, 0x8000_0000)
    } else {
        spec_norm_case(frac, 0x3800_0000_0000_0000, 0x40_0000, 0x4000_0000)
    }
}

/// The binary64 pattern of the double that a binary32 pattern `g` converts
/// to. The conversion is exact for every finite binary32; infinities map to
/// infinities; a NaN maps to the NaN with the fraction shifted up by 29
/// bits and the quiet bit set (as hardware conversions do).
pub open spec fn spec_f64_of_f32(g: u32) -> u64 {
    let sign = g as int / 0x8000_0000;
    let gabs = g as int % 0x8000_0000;
    let exp = gabs / 0x80_0000;
    let frac = gabs % 0x80_0000;
    let body = if exp == 255 {
        if frac == 0 {
            0x7FF0_0000_0000_0000
        } else if frac >= 0x40_0000 {
            0x7FF0_0000_0000_0000 + frac * 0x2000_0000
        } else {
            0x7FF8_0000_0000_0000 + frac * 0x2000_0000
        }
    } else if exp == 0 {
        if frac == 0 {
            0
        } else {
            spec_f64_of_f32_subnormal(frac)
        }
    } else {
        (exp + 896) * 0x10_0000_0000_0000 + frac * 0x2000_0000
    };
    (sign * 0x8000_0000_0000_0000 + body) as u64
}

/// The binary64 pattern of the value of a binary32 subnormal fraction.
fn f64_bits_of_f32_subnormal(frac: u32) -> (r: u64)
    requires
        1 <= frac < 0x80_0000,
    ensures
        r == spec_f64_of_f32_subnormal(frac as int),
{
    let v = frac as u64;
    if v < 0x2 {
        norm_case(v, 0x36A0_0000_0000_0000, 0x1, 0x10_0000_0000_0000)
    } else if v < 0x4 {
        norm_case(v, 0x36B0_0000_0000_0000, 0x2, 0x8_0000_0000_0000)
    } else if v < 0x8 {
        norm_case(v, 0x36C0_0000_0000_0000, 0x4, 0x4_0000_0000_0000)
    } else if v < 0x10 {
        norm_case(v, 0x36D0_0000_0000_0000, 0x8, 0x2_0000_0000_0000)
    } else if v < 0x20 {
        norm_case(v, 0x36E0_0000_0000_0000, 0x10, 0x1_0000_0000_0000)
    } else if v < 0x40 {
        norm_case(v, 0x36F0_0000_0000_0000, 0x20, 0x8000_0000_0000)
    } else if v < 0x80 {
        norm_case(v, 0x3700_0000_0000_0000, 0x40, 0x4000_0000_0000)
    } else if v < 0x100 {
        norm_case(v, 0x3710_0000_0000_0000, 0x80, 0x2000_0000_0000)
    } else if v < 0x200 {
        norm_case(v, 0x3720_0000_0000_0000, 0x100, 0x1000_0000_0000)
    } else if v < 0x400 {
        norm_case(v, 0x3730_0000_0000_0000, 0x200, 0x800_0000_0000)
    } else if v < 0x800 {
        norm_case(v, 0x3740_0000_0000_0000, 0x400, 0x400_0000_0000)
    } else if v < 0x1000 {
        norm_case(v, 0x3750_0000_0000_0000, 0x800, 0x200_0000_0000)
    } else if v < 0x2000 {
        norm_case(v, 0x3760_0000_0000_0000, 0x1000, 0x100_0000_0000)
    } else if v < 0x4000 {
        norm_case(v, 0x3770_0000_0000_0000, 0x2000, 0x80_0000_0000)
    } else if v < 0x8000 {
        norm_case(v, 0x3780_0000_0000_0000, 0x4000, 0x40_0000_0000)
    } else if v < 0x1_0000 {
        norm_case(v, 0x3790_0000_0000_0000, 0x8000, 0x20_0000_0000)
    } else if v < 0x2_0000 {
        norm_case(v, 0x37A0_0000_0000_0000, 0x1_0000, 0x10_0000_0000)
    } else if v < 0x4_0000 {
        norm_case(v, 0x37B0_0000_0000_0000, 0x2_0000, 0x8_0000_0000)
    } else if v < 0x8_0000 {
        norm_case(v, 0x37C0_0000_0000_0000, 0x4_0000, 0x4_0000_0000)
    } else if v < 0x10_0000 {
        norm_case(v, 0x37D0_0000_0000_0000, 0x8_0000, 0x2_0000_0000)
    } else if v < 0x20_0000 {
        norm_case(v, 0x37E0_0000_0000_0000, 0x10_0000, 0x1_0000_0000)
    } else if v < 0x40_0000 {
        norm_case(v, 0x37F0_0000_0000_0000, 0x20_0000, 0x8000_0000)
    } else {
        norm_case(v, 0x3800_0000_0000_0000, 0x40_0000, 0x4000_0000)
    }
}

/// The binary64 pattern that a binary32 pattern converts to.
pub fn f64_bits_of_f32_bits(g: u32) -> (r: u64)
    ensures
        r == spec_f64_of_f32(g),
{
    let sign: u64 = if g >= 0x8000_0000 {
        1
    } else {
        0
    };
    let gabs = g % 0x8000_0000;
    let exp = gabs / 0x80_0000;
    let frac = gabs % 0x80_0000;
    let body: u64 = if exp == 255 {
        if frac == 0 {
            0x7FF0_0000_0000_0000
        } else if frac >= 0x40_0000 {
            0x7FF0_0000_0000_0000 + (frac as u64) * 0x2000_0000
        } else {
            0x7FF8_0000_0000_0000 + (frac as u64) * 0x2000_0000
        }
    } else if exp == 0 {
        if frac == 0 {
            0
        } else {
            f64_bits_of_f32_subnormal(frac)
        }
    } else {
        ((exp as u64) + 896) * 0x10_0000_0000_0000 + (frac as u64) * 0x2000_0000
    };
    sign * 0x8000_0000_0000_0000 + body
}

} // verus!
