//! The calls into chrono and uuid that the library's logic makes.
use vstd::prelude::*;

use crate::models::Timestamp;

verus! {

/// Days from the epoch to the first day of a month of the proleptic
/// Gregorian calendar: years are counted from March, so that the leap day
/// ends a year, and divisions round down.
pub open spec fn days_to_month(year: int, month: int) -> int {
    let y = if month <= 2 { year - 1 } else { year };
    let m = if month <= 2 { month + 9 } else { month - 3 };
    365 * y + y / 4 - y / 100 + y / 400 + (153 * m + 2) / 5 - 719468
}

/// The first instant of a civil month in UTC, as seconds since the epoch.
pub open spec fn month_start_secs(year: int, month: int) -> int {
    days_to_month(year, month) * 86400
}

/// The text that chrono renders for an instant with a strftime pattern.
pub uninterp spec fn time_text(secs: int, nanos: int, pattern: Seq<char>) -> Seq<char>;

/// The smallest year that chrono's `NaiveDate` holds.
pub const MIN_YEAR: i32 = -262143;

/// The largest year that chrono's `NaiveDate` holds.
pub const MAX_YEAR: i32 = 262142;

/// Relies on `chrono::Utc::now`, read through `DateTime::timestamp` and
/// `DateTime::timestamp_subsec_nanos`: the current time. chrono takes it as
/// a duration since the epoch (so never before it) and builds a date within
/// its range of about 262,000 years, with fewer than a second of nanoseconds.
#[verifier::external_body]
pub(crate) fn now() -> (r: Timestamp)
    ensures
        0 <= r.secs < 0x2000_0000_0000,
        r.nanos < 1_000_000_000,
{
    let t = chrono::Utc::now();
    Timestamp { secs: t.timestamp(), nanos: t.timestamp_subsec_nanos() }
}

/// The hexadecimal digit of `n`, for `0 <= n < 16`, in lower case.
pub open spec fn hex_digit(n: int) -> char {
    seq!['0', '1', '2', '3', '4', '5', '6', '7', '8', '9', 'a', 'b', 'c', 'd', 'e', 'f'][n]
}

/// The `k`-th of the 32 hexadecimal digits of `id`, the most significant
/// first.
pub open spec fn id_nibble(id: u128, k: int) -> int {
    (id as int / vstd::arithmetic::power::pow(16, (31 - k) as nat)) % 16
}

/// An identifier as a hyphenated lower-case UUID, `8-4-4-4-12` digits.
pub open spec fn id_text(id: u128) -> Seq<char> {
    Seq::new(
        36,
        |i: int|
            if i == 8 || i == 13 || i == 18 || i == 23 {
                '-'
            } else {
                let k = if i < 8 {
                    i
                } else if i < 13 {
                    i - 1
                } else if i < 18 {
                    i - 2
                } else if i < 23 {
                    i - 3
                } else {
                    i - 4
                };
                hex_digit(id_nibble(id, k))
            },
    )
}

/// Relies on `uuid::Uuid::from_u128` and `Uuid`'s `Display`, which writes
/// the bytes, the most significant first, as hyphenated lower-case hex.
#[verifier::external_body]
pub(crate) fn format_id(id: u128) -> (r: String)
    ensures
        r@ == id_text(id),
{
    uuid::Uuid::from_u128(id).to_string()
}

/// Relies on `String::push`: appends one character.
#[verifier::external_body]
pub(crate) fn push_char(s: &mut String, c: char)
    ensures
        final(s)@ == old(s)@.push(c),
{
    s.push(c);
}

/// Relies on `uuid::Uuid::new_v4` and `Uuid::as_u128`: a random identifier.
#[verifier::external_body]
pub(crate) fn new_id() -> (r: u128) {
    uuid::Uuid::new_v4().as_u128()
}

/// Relies on `chrono::NaiveDate::from_ymd_opt(year, month, 1)`, taken to
/// midnight UTC and read with `DateTime::timestamp`: the first second of the
/// month in the proleptic Gregorian calendar, which exists for every month
/// of a year that chrono holds; dates span about 262,000 years either side
/// of the epoch.
#[verifier::external_body]
pub(crate) fn month_start(year: i32, month: u32) -> (r: Option<i64>)
    ensures
        (1 <= month <= 12 && MIN_YEAR <= year <= MAX_YEAR) ==> r.is_some(),
        r matches Some(s) ==> s == month_start_secs(year as int, month as int),
        r matches Some(s) ==> -0x2000_0000_0000 < s < 0x2000_0000_0000,
{
    match chrono::NaiveDate::from_ymd_opt(year, month, 1) {
        Some(d) => Some(d.and_time(chrono::NaiveTime::MIN).and_utc().timestamp()),
        None => None,
    }
}

/// The strftime patterns that the library renders instants with.
pub open spec fn known_pattern(pattern: Seq<char>) -> bool {
    pattern == "%Y-%m-%d"@ || pattern == "%Y-%m-%d %H:%M:%S"@ || pattern == "%Y-%m-%d (%a)"@
}

/// Relies on `chrono::DateTime::from_timestamp` and `DateTime::format`: the
/// instant rendered with a strftime pattern; empty for an instant that
/// chrono cannot hold. Only well-formed patterns are passed, as `to_string`
/// panics on a pattern that chrono cannot render.
#[verifier::external_body]
pub(crate) fn format_time(t: &Timestamp, pattern: &str) -> (r: String)
    requires
        known_pattern(pattern@),
    ensures
        r@ == time_text(t.secs as int, t.nanos as int, pattern@),
{
    match chrono::DateTime::from_timestamp(t.secs, t.nanos) {
        Some(dt) => dt.format(pattern).to_string(),
        None => String::new(),
    }
}

} // verus!
