//! Timestamps: the UTC calendar text of a Unix timestamp in milliseconds.
use vstd::prelude::*;

use crate::text::{decimal_int, decimal_nat, i64_decimal, opt_view};

verus! {

/// The proleptic Gregorian date `(year, month, day)` of the day `z` days
/// after 1970-01-01 (year 0 is 1 BCE): the day is placed in its 400-year era,
/// then in its year counted from March 1st, then in its month.
pub open spec fn civil_from_days(z: int) -> (int, int, int) {
    let zz = z + 719_468;
    let era = zz / 146_097;
    let doe = zz - era * 146_097;
    let yoe = (doe - doe / 1460 + doe / 36_524 - doe / 146_096) / 365;
    let doy = doe - (365 * yoe + yoe / 4 - yoe / 100);
    let mp = (5 * doy + 2) / 153;
    let d = doy - (153 * mp + 2) / 5 + 1;
    let m = if mp < 10 { mp + 3 } else { mp - 9 };
    let y = yoe + era * 400;
    (if m <= 2 { y + 1 } else { y }, m, d)
}

/// The UTC calendar year of the instant `ts` milliseconds after the Unix epoch.
pub open spec fn utc_year(ts: int) -> int {
    civil_from_days(ts / 86_400_000).0
}

/// The years that `chrono` dates can have: from -262143 to 262142.
pub open spec fn year_in_chrono_range(year: int) -> bool {
    -262_143 <= year <= 262_142
}

/// The decimal digits of `n`, with zeros in front up to `width` characters.
pub open spec fn zero_padded(n: nat, width: nat) -> Seq<char> {
    let digits = decimal_nat(n);
    if digits.len() < width {
        Seq::new((width - digits.len()) as nat, |i: int| '0') + digits
    } else {
        digits
    }
}

/// A year as `%Y` writes it: four digits with zeros in front for years 0 to
/// 9999; otherwise a sign, then at least four digits.
pub open spec fn year_text(year: int) -> Seq<char> {
    if 0 <= year <= 9999 {
        zero_padded(year as nat, 4)
    } else if year < 0 {
        seq!['-'] + zero_padded((-year) as nat, 4)
    } else {
        seq!['+'] + zero_padded(year as nat, 4)
    }
}

/// The instant `ts` milliseconds after the Unix epoch in the format
/// `%Y-%m-%d %H:%M:%S%.3f UTC`.
pub open spec fn utc_millis_text(ts: int) -> Seq<char> {
    let day = ts / 86_400_000;
    let ms_of_day = ts % 86_400_000;
    let date = civil_from_days(day);
    let secs = ms_of_day / 1000;
    year_text(date.0) + seq!['-'] + zero_padded(date.1 as nat, 2) + seq!['-'] + zero_padded(
        date.2 as nat,
        2,
    ) + seq![' '] + zero_padded((secs / 3600) as nat, 2) + seq![':'] + zero_padded(
        ((secs % 3600) / 60) as nat,
        2,
    ) + seq![':'] + zero_padded((secs % 60) as nat, 2) + seq!['.'] + zero_padded(
        (ms_of_day % 1000) as nat,
        3,
    ) + seq![' ', 'U', 'T', 'C']
}

/// Calls `chrono::DateTime::from_timestamp_millis` and, when it gives an
/// instant, formats it with `%Y-%m-%d %H:%M:%S%.3f UTC`. Claimed: an instant
/// is given exactly when its UTC year lies in `chrono`'s range, and its text
/// is the UTC calendar date and time of the timestamp (`utc_millis_text`).
#[verifier::external_body]
fn utc_millis_format(ts_unix_ms: i64) -> (r: Option<String>)
    ensures
        opt_view(r) == if year_in_chrono_range(utc_year(ts_unix_ms as int)) {
            Some(utc_millis_text(ts_unix_ms as int))
        } else {
            None
        },
{
    match chrono::DateTime::from_timestamp_millis(ts_unix_ms) {
        Some(dt) => Some(dt.format("%Y-%m-%d %H:%M:%S%.3f UTC").to_string()),
        None => None,
    }
}

/// The text of a timestamp given the calendar text of it, if any: that text,
/// else the timestamp in decimal.
pub open spec fn unix_ms_text_from(ts_unix_ms: i64, formatted: Option<Seq<char>>) -> Seq<char> {
    match formatted {
        Some(s) => s,
        None => decimal_int(ts_unix_ms as int),
    }
}

/// The text of a timestamp: its UTC calendar text when its year lies in
/// `chrono`'s range, else its decimal value.
pub open spec fn unix_ms_text(ts_unix_ms: i64) -> Seq<char> {
    if year_in_chrono_range(utc_year(ts_unix_ms as int)) {
        utc_millis_text(ts_unix_ms as int)
    } else {
        decimal_int(ts_unix_ms as int)
    }
}

/// The text of `ts_unix_ms` given its calendar text `formatted`.
pub fn format_unix_ms_from(ts_unix_ms: i64, formatted: Option<String>) -> (r: String)
    ensures
        r@ == unix_ms_text_from(ts_unix_ms, opt_view(formatted)),
{
    match formatted {
        Some(s) => s,
        None => i64_decimal(ts_unix_ms),
    }
}

/// The text of a timestamp: its UTC calendar text, else its decimal value.
pub fn format_unix_ms(ts_unix_ms: i64) -> (r: String)
    ensures
        r@ == unix_ms_text(ts_unix_ms),
{
    let formatted = utc_millis_format(ts_unix_ms);
    format_unix_ms_from(ts_unix_ms, formatted)
}

} // verus!
