//! The value decoder: turns one raw reading (decimal text or a hex byte
//! string) into a calibrated-measurement plan.
//!
//! Decoding is split in two verified halves around the one step that needs
//! native float arithmetic. `decode_plan` classifies the raw text and
//! extracts the exact register value where there is one; the caller then
//! computes `raw * calibration_factor + offset` (and, for textual readings,
//! the decimal parse with `0.0` as the fallback) and hands the resulting
//! bit pattern to `finish_value`, which applies the sentinel rules.

use vstd::prelude::*;
use vstd::string::StrSliceExecFns;
use crate::floatbits::{
    spec_f64_of_u16, spec_f64_of_f32, f64_bits_of_u16, f64_bits_of_f32_bits,
    f64_bits_nan_or_infinite, f64_is_nan, f64_is_infinite, DISCONNECT_BITS, TIMEOUT_BITS,
};
use crate::hexcodec::{spec_valid_hex, spec_hex_bytes, hex_decode};
use crate::text::str_eq_chars;

verus! {

/// The class of a channel, selected once from its key prefix.
pub enum ChannelClass {
    /// A temperature probe (`probe-kind@<serial>` keys).
    Probe,
    /// A Modbus register (`modbus@...` keys).
    Modbus,
    /// The device battery level (`battery@<device>` keys).
    Battery,
}

/// What remains to be done to produce the calibrated value of one reading.
pub enum DecodePlan {
    /// The probe reported the disconnected sentinel; the value is `-127.0`,
    /// uncalibrated.
    Disconnected,
    /// The register payload was unreadable; the value is `9999.0`.
    Timeout,
    /// `raw_bits` is the exact double denoted by the register; the caller
    /// multiplies by the calibration factor and adds the offset, and the
    /// result is clamped to the timeout sentinel if it is NaN or infinite.
    Calibrate { raw_bits: u64 },
    /// The caller parses `text` as a decimal number (`0.0` when it does not
    /// parse) and calibrates it; no clamping is applied.
    ParseCalibrate { text: String },
}

/// The view of a decode plan, with the pending text as a character
/// sequence.
pub enum DecodePlanView {
    Disconnected,
    Timeout,
    Calibrate { raw_bits: u64 },
    ParseCalibrate { text: Seq<char> },
}

impl View for DecodePlan {
    type V = DecodePlanView;

    open spec fn view(&self) -> DecodePlanView {
        match self {
            DecodePlan::Disconnected => DecodePlanView::Disconnected,
            DecodePlan::Timeout => DecodePlanView::Timeout,
            DecodePlan::Calibrate { raw_bits } => DecodePlanView::Calibrate {
                raw_bits: *raw_bits,
            },
            DecodePlan::ParseCalibrate { text } => DecodePlanView::ParseCalibrate { text: text@ },
        }
    }
}

/// The index of the first `@` in `s` at or after `i`, or the length of `s`
/// if there is none.
pub open spec fn spec_first_at(s: Seq<char>, i: nat) -> nat
    decreases s.len() - i,
{
    if i >= s.len() {
        i
    } else if s[i as int] == '@' {
        i
    } else {
        spec_first_at(s, i + 1)
    }
}

/// The key prefix: everything before the first `@`.
pub open spec fn spec_key_prefix(s: Seq<char>) -> Seq<char> {
    s.take(spec_first_at(s, 0) as int)
}

/// The channel class a key belongs to, by its prefix. Keys derived by this
/// library carry one of the prefixes `probe-kind`, `modbus` and `battery`;
/// the battery reading needs no calibration-free special case, so every
/// other prefix is treated like `battery` (parse the text as a decimal).
pub open spec fn spec_class_of(key: Seq<char>) -> ChannelClass {
    if spec_key_prefix(key) == "probe-kind"@ {
        ChannelClass::Probe
    } else if spec_key_prefix(key) == "modbus"@ {
        ChannelClass::Modbus
    } else {
        ChannelClass::Battery
    }
}

/// Selects the channel class from the key's prefix.
pub fn classify_key(key: &str) -> (c: ChannelClass)
    ensures
        c == spec_class_of(key@),
{
    let len = key.unicode_len();
    let mut i: usize = 0;
    while i < len && key.get_char(i) != '@'
        invariant
            len == key@.len(),
            i <= len,
            spec_first_at(key@, 0) == spec_first_at(key@, i as nat),
        decreases len - i,
    {
        i = i + 1;
    }
    proof {
        assert(spec_first_at(key@, i as nat) == i);
    }
    let prefix = key.substring_char(0, i);
    proof {
        assert(prefix@ =~= spec_key_prefix(key@));
    }
    if str_eq_chars(prefix, "probe-kind") {
        ChannelClass::Probe
    } else if str_eq_chars(prefix, "modbus") {
        ChannelClass::Modbus
    } else {
        ChannelClass::Battery
    }
}

/// The unsigned 16-bit big-endian value of the first two bytes.
pub open spec fn spec_be16(b: Seq<u8>) -> u16
    recommends
        b.len() >= 2,
{
    (b[0] * 0x100 + b[1]) as u16
}

/// The 32-bit big-endian value of the first four bytes.
pub open spec fn spec_be32(b: Seq<u8>) -> u32
    recommends
        b.len() >= 4,
{
    (b[0] * 0x100_0000 + b[1] * 0x1_0000 + b[2] * 0x100 + b[3]) as u32
}

/// The decode plan of a raw reading of a given class.
pub open spec fn spec_plan_of(class: ChannelClass, raw: Seq<char>) -> DecodePlanView {
    match class {
        ChannelClass::Probe => {
            if raw == "-127"@ {
                DecodePlanView::Disconnected
            } else {
                DecodePlanView::ParseCalibrate { text: raw }
            }
        },
        ChannelClass::Modbus => {
            if spec_valid_hex(raw) && raw.len() == 4 {
                DecodePlanView::Calibrate {
                    raw_bits: spec_f64_of_u16(spec_be16(spec_hex_bytes(raw))),
                }
            } else if spec_valid_hex(raw) && raw.len() == 8 {
                DecodePlanView::Calibrate {
                    raw_bits: spec_f64_of_f32(spec_be32(spec_hex_bytes(raw))),
                }
            } else {
                DecodePlanView::Timeout
            }
        },
        ChannelClass::Battery => DecodePlanView::ParseCalibrate { text: raw },
    }
}

/// Builds the decode plan of one raw reading: the disconnected sentinel for
/// a probe reading `"-127"`; the exact register value for a two- or
/// four-byte hex payload; the timeout sentinel for any other hex payload;
/// and a pending decimal parse otherwise.
pub fn decode_plan(class: &ChannelClass, raw: &String) -> (p: DecodePlan)
    ensures
        p@ == spec_plan_of(*class, raw@),
{
    match class {
        ChannelClass::Probe => {
            if str_eq_chars(raw.as_str(), "-127") {
                DecodePlan::Disconnected
            } else {
                DecodePlan::ParseCalibrate { text: raw.clone() }
            }
        },
        ChannelClass::Modbus => {
            match hex_decode(raw.as_str()) {
                Some(bytes) => {
                    if bytes.len() == 2 {
                        let hi = bytes[0];
                        let lo = bytes[1];
                        let word: u16 = (hi as u16) * 0x100 + (lo as u16);
                        DecodePlan::Calibrate { raw_bits: f64_bits_of_u16(word) }
                    } else if bytes.len() == 4 {
                        let word: u32 = (bytes[0] as u32) * 0x100_0000 + (bytes[1] as u32)
                            * 0x1_0000 + (bytes[2] as u32) * 0x100 + (bytes[3] as u32);
                        DecodePlan::Calibrate { raw_bits: f64_bits_of_f32_bits(word) }
                    } else {
                        DecodePlan::Timeout
                    }
                },
                None => DecodePlan::Timeout,
            }
        },
        ChannelClass::Battery => DecodePlan::ParseCalibrate { text: raw.clone() },
    }
}

/// The final calibrated value of a reading, given the caller-computed
/// calibration answer where the plan asks for one.
pub open spec fn spec_final_bits(plan: DecodePlanView, answer: u64) -> u64 {
    match plan {
        DecodePlanView::Disconnected => DISCONNECT_BITS,
        DecodePlanView::Timeout => TIMEOUT_BITS,
        DecodePlanView::Calibrate { .. } => {
            if f64_is_nan(answer) || f64_is_infinite(answer) {
                TIMEOUT_BITS
            } else {
                answer
            }
        },
        DecodePlanView::ParseCalibrate { .. } => answer,
    }
}

/// Completes a decode plan with the caller-computed calibration answer:
/// sentinels keep their fixed values, a register answer is clamped to the
/// timeout sentinel when NaN or infinite, and a textual answer is taken as
/// is.
pub fn finish_value(plan: &DecodePlan, answer: u64) -> (v: u64)
    ensures
        v == spec_final_bits(plan@, answer),
{
    match plan {
        DecodePlan::Disconnected => DISCONNECT_BITS,
        DecodePlan::Timeout => TIMEOUT_BITS,
        DecodePlan::Calibrate { .. } => {
            if f64_bits_nan_or_infinite(answer) {
                TIMEOUT_BITS
            } else {
                answer
            }
        },
        DecodePlan::ParseCalibrate { .. } => answer,
    }
}

/// For a two-byte register payload, the plan carries exactly the register's
/// unsigned big-endian value as a double, and any finite calibrated answer
/// passes through unchanged: the pipeline adds no rounding of its own.
pub proof fn lemma_u16_decode_exact(raw: Seq<char>, answer: u64)
    requires
        spec_valid_hex(raw),
        raw.len() == 4,
        !f64_is_nan(answer),
        !f64_is_infinite(answer),
    ensures
        spec_plan_of(ChannelClass::Modbus, raw) == (DecodePlanView::Calibrate {
            raw_bits: spec_f64_of_u16(spec_be16(spec_hex_bytes(raw))),
        }),
        spec_final_bits(spec_plan_of(ChannelClass::Modbus, raw), answer) == answer,
{
}

/// For a four-byte register payload, the plan carries exactly the double
/// that the payload's binary32 value converts to, and any finite calibrated
/// answer passes through unchanged.
pub proof fn lemma_f32_decode_exact(raw: Seq<char>, answer: u64)
    requires
        spec_valid_hex(raw),
        raw.len() == 8,
        !f64_is_nan(answer),
        !f64_is_infinite(answer),
    ensures
        spec_plan_of(ChannelClass::Modbus, raw) == (DecodePlanView::Calibrate {
            raw_bits: spec_f64_of_f32(spec_be32(spec_hex_bytes(raw))),
        }),
        spec_final_bits(spec_plan_of(ChannelClass::Modbus, raw), answer) == answer,
{
}

} // verus!

