//! Parsing of reading timestamps against the fixed `YYYY-MM-DDTHH:MM:SS`
//! pattern, and their conversion to Unix epoch seconds (proleptic Gregorian
//! calendar). An unparsable timestamp defaults to the epoch.

use vstd::prelude::*;
use vstd::string::StrSliceExecFns;

verus! {

/// Whether `c` is a decimal digit.
pub open spec fn spec_is_digit(c: char) -> bool {
    48 <= c as u32 <= 57
}

/// The value of a decimal digit character.
pub open spec fn spec_digit(c: char) -> int {
    c as u32 - 48
}

/// The value of the two-digit run at `from`.
pub open spec fn spec_num2(s: Seq<char>, from: int) -> int {
    spec_digit(s[from]) * 10 + spec_digit(s[from + 1])
}

/// The value of the four-digit run at `from`.
pub open spec fn spec_num4(s: Seq<char>, from: int) -> int {
    spec_digit(s[from]) * 1000 + spec_digit(s[from + 1]) * 100 + spec_digit(s[from + 2]) * 10
        + spec_digit(s[from + 3])
}

/// Whether every character in `[from, to)` is a decimal digit.
pub open spec fn spec_all_digits(s: Seq<char>, from: int, to: int) -> bool {
    forall|i: int| from <= i < to ==> spec_is_digit(#[trigger] s[i])
}

/// A proleptic Gregorian leap year.
pub open spec fn spec_is_leap(y: int) -> bool {
    y % 4 == 0 && (y % 100 != 0 || y % 400 == 0)
}

/// The number of days of month `m` (1-based) in year `y`.
pub open spec fn spec_days_in_month(y: int, m: int) -> int {
    if m == 1 || m == 3 || m == 5 || m == 7 || m == 8 || m == 10 || m == 12 {
        31
    } else if m == 4 || m == 6 || m == 9 || m == 11 {
        30
    } else if m == 2 {
        if spec_is_leap(y) {
            29
        } else {
            28
        }
    } else {
        0
    }
}

/// A timestamp in the fixed `YYYY-MM-DDTHH:MM:SS` form denoting a valid
/// calendar date and time of day.
pub open spec fn spec_valid_ts(s: Seq<char>) -> bool {
    &&& s.len() == 19
    &&& spec_all_digits(s, 0, 4)
    &&& s[4] == '-'
    &&& spec_all_digits(s, 5, 7)
    &&& s[7] == '-'
    &&& spec_all_digits(s, 8, 10)
    &&& s[10] == 'T'
    &&& spec_all_digits(s, 11, 13)
    &&& s[13] == ':'
    &&& spec_all_digits(s, 14, 16)
    &&& s[16] == ':'
    &&& spec_all_digits(s, 17, 19)
    &&& 1 <= spec_num2(s, 5) <= 12
    &&& 1 <= spec_num2(s, 8) <= spec_days_in_month(spec_num4(s, 0), spec_num2(s, 5))
    &&& spec_num2(s, 11) <= 23
    &&& spec_num2(s, 14) <= 59
    &&& spec_num2(s, 17) <= 59
}

/// Days from 1970-01-01 to the given civil date (negative for earlier
/// dates), on the proleptic Gregorian calendar. The era decomposition
/// groups years into 400-year eras of 146097 days each; `doy` is the day
/// of the March-based year.
pub open spec fn spec_days_from_civil(y: int, m: int, d: int) -> int {
    let yy = if m <= 2 {
        y - 1
    } else {
        y
    };
    let era = yy / 400;
    let yoe = yy - era * 400;
    let mp = if m > 2 {
        m - 3
    } else {
        m + 9
    };
    let doy = (153 * mp + 2) / 5 + d - 1;
    let doe = yoe * 365 + yoe / 4 - yoe / 100 + doy;
    era * 146097 + doe - 719468
}

/// The Unix epoch seconds denoted by a valid timestamp.
pub open spec fn spec_ts_epoch(s: Seq<char>) -> int {
    spec_days_from_civil(spec_num4(s, 0), spec_num2(s, 5), spec_num2(s, 8)) * 86400 + spec_num2(
        s,
        11,
    ) * 3600 + spec_num2(s, 14) * 60 + spec_num2(s, 17)
}

/// The parse of a timestamp string: its epoch seconds when it is a valid
/// `YYYY-MM-DDTHH:MM:SS` timestamp, nothing otherwise.
pub open spec fn spec_parse_ts(s: Seq<char>) -> Option<i64> {
    if spec_valid_ts(s) {
        Option::Some(spec_ts_epoch(s) as i64)
    } else {
        Option::None
    }
}

/// The epoch seconds of a timestamp string, defaulting to the Unix epoch
/// itself when the string does not parse.
pub open spec fn spec_epoch_or_zero(s: Seq<char>) -> i64 {
    match spec_parse_ts(s) {
        Option::Some(t) => t,
        Option::None => 0,
    }
}

/// The decimal value of a digit character.
fn char_digit(c: char) -> (r: Option<u8>)
    ensures
        match r {
            Option::Some(d) => spec_is_digit(c) && d == spec_digit(c),
            Option::None => !spec_is_digit(c),
        },
{
    let u = c as u32;
    if 48 <= u && u <= 57 {
        Some((u - 48) as u8)
    } else {
        None
    }
}

/// Reads the two-digit number at `from`.
fn num2(s: &str, from: usize) -> (r: Option<u32>)
    requires
        from <= 100,
        from + 2 <= s@.len(),
    ensures
        match r {
            Option::Some(v) => spec_all_digits(s@, from as int, from + 2) && v == spec_num2(
                s@,
                from as int,
            ),
            Option::None => !spec_all_digits(s@, from as int, from + 2),
        },
{
    let d0 = match char_digit(s.get_char(from)) {
        Some(d) => d,
        None => {
            return None;
        },
    };
    let d1 = match char_digit(s.get_char(from + 1)) {
        Some(d) => d,
        None => {
            return None;
        },
    };
    Some((d0 as u32) * 10 + (d1 as u32))
}

/// Reads the four-digit number at `from`.
fn num4(s: &str, from: usize) -> (r: Option<u32>)
    requires
        from <= 96,
        from + 4 <= s@.len(),
    ensures
        match r {
            Option::Some(v) => spec_all_digits(s@, from as int, from + 4) && v == spec_num4(
                s@,
                from as int,
            ),
            Option::None => !spec_all_digits(s@, from as int, from + 4),
        },
{
    let a = match num2(s, from) {
        Some(v) => v,
        None => {
            return None;
        },
    };
    let b = match num2(s, from + 2) {
        Some(v) => v,
        None => {
            return None;
        },
    };
    Some(a * 100 + b)
}

/// The number of days of month `m` in year `y`.
fn days_in_month(y: u32, m: u32) -> (r: u32)
    ensures
        r == spec_days_in_month(y as int, m as int),
{
    if m == 1 || m == 3 || m == 5 || m == 7 || m == 8 || m == 10 || m == 12 {
        31
    } else if m == 4 || m == 6 || m == 9 || m == 11 {
        30
    } else if m == 2 {
        if y % 4 == 0 && (y % 100 != 0 || y % 400 == 0) {
            29
        } else {
            28
        }
    } else {
        0
    }
}

/// Days from 1970-01-01 to the given civil date.
fn days_from_civil(y: u32, m: u32, d: u32) -> (r: i64)
    requires
        y <= 9999,
        1 <= m <= 12,
        1 <= d <= 31,
    ensures
        r == spec_days_from_civil(y as int, m as int, d as int),
        -1_000_000 <= r <= 3_000_000,
{
    let yy: i64 = if m <= 2 {
        y as i64 - 1
    } else {
        y as i64
    };
    // `yy / 400` must round toward negative infinity; `yy` is at least -1,
    // so the one negative case is handled apart.
    let era: i64 = if yy < 0 {
        -1
    } else {
        yy / 400
    };
    let yoe: i64 = yy - era * 400;
    let mp: i64 = if m > 2 {
        m as i64 - 3
    } else {
        m as i64 + 9
    };
    let doy: i64 = (153 * mp + 2) / 5 + d as i64 - 1;
    let doe: i64 = yoe * 365 + yoe / 4 - yoe / 100 + doy;
    era * 146097 + doe - 719468
}

/// Parses a `YYYY-MM-DDTHH:MM:SS` timestamp into Unix epoch seconds;
/// `None` exactly when the string does not have that shape or denotes an
/// invalid date or time of day.
pub fn parse_timestamp(s: &str) -> (r: Option<i64>)
    ensures
        r == spec_parse_ts(s@),
{
    if s.unicode_len() != 19 {
        return None;
    }
    if s.get_char(4) != '-' || s.get_char(7) != '-' || s.get_char(10) != 'T' || s.get_char(13)
        != ':' || s.get_char(16) != ':' {
        return None;
    }
    let y = match num4(s, 0) {
        Some(v) => v,
        None => {
            return None;
        },
    };
    let mo = match num2(s, 5) {
        Some(v) => v,
        None => {
            return None;
        },
    };
    let d = match num2(s, 8) {
        Some(v) => v,
        None => {
            return None;
        },
    };
    let h = match num2(s, 11) {
        Some(v) => v,
        None => {
            return None;
        },
    };
    let mi = match num2(s, 14) {
        Some(v) => v,
        None => {
            return None;
        },
    };
    let sec = match num2(s, 17) {
        Some(v) => v,
        None => {
            return None;
        },
    };
    if !(1 <= mo && mo <= 12) {
        return None;
    }
    if !(1 <= d && d <= days_in_month(y, mo)) {
        return None;
    }
    if !(h <= 23 && mi <= 59 && sec <= 59) {
        return None;
    }
    let days = days_from_civil(y, mo, d);
    Some(days * 86400 + (h as i64) * 3600 + (mi as i64) * 60 + (sec as i64))
}

/// The epoch seconds of a timestamp string, the Unix epoch itself when it
/// does not parse.
pub fn epoch_or_zero(s: &str) -> (t: i64)
    ensures
        t == spec_epoch_or_zero(s@),
{
    match parse_timestamp(s) {
        Some(v) => v,
        None => 0,
    }
}

} // verus!
