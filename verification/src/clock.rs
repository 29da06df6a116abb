//! Readings of the machine's clock.
use vstd::prelude::*;

verus! {

/// Calls `std::time::SystemTime::now()` and reads the whole seconds since the Unix epoch;
/// none where the clock reads earlier than the epoch. The reading depends on the machine's
/// clock, so nothing more is stated of it.
#[verifier::external_body]
fn try_unix_time_secs() -> Option<u64> {
    match std::time::SystemTime::now().duration_since(std::time::UNIX_EPOCH) {
        Ok(d) => Some(d.as_secs()),
        Err(_) => None,
    }
}

/// Calls `std::time::SystemTime::now()` and reads the nanoseconds since the Unix epoch; none
/// where the clock reads earlier than the epoch. Nothing more is stated of the reading.
#[verifier::external_body]
fn try_unix_time_nanos() -> Option<u128> {
    match std::time::SystemTime::now().duration_since(std::time::UNIX_EPOCH) {
        Ok(d) => Some(d.as_nanos()),
        Err(_) => None,
    }
}

/// Reads `std::time::SystemTime::now()` and hands it to `chrono::DateTime::from_timestamp`,
/// then to `timestamp_millis`: the milliseconds since the Unix epoch, as `chrono::Utc::now()`
/// gives them, but none where the clock reads earlier than the epoch or beyond chrono's range
/// (where `Utc::now` would panic). Nothing more is stated of the reading.
#[verifier::external_body]
fn try_utc_now_millis() -> Option<i64> {
    let d = std::time::SystemTime::now().duration_since(std::time::UNIX_EPOCH).ok()?;
    match chrono::DateTime::from_timestamp(d.as_secs() as i64, d.subsec_nanos()) {
        Some(t) => Some(t.timestamp_millis()),
        None => None,
    }
}

/// Reads `std::time::SystemTime::now()` and hands it to `chrono::DateTime::from_timestamp`,
/// then to `to_rfc3339`: the present moment in RFC 3339 form, as `chrono::Utc::now()` would
/// write it; none where the clock reads earlier than the epoch or beyond chrono's range.
#[verifier::external_body]
fn try_utc_now_rfc3339() -> Option<String> {
    let d = std::time::SystemTime::now().duration_since(std::time::UNIX_EPOCH).ok()?;
    match chrono::DateTime::from_timestamp(d.as_secs() as i64, d.subsec_nanos()) {
        Some(t) => Some(t.to_rfc3339()),
        None => None,
    }
}

/// The whole seconds since the Unix epoch by the machine's clock; zero where the clock reads
/// earlier than the epoch.
pub(crate) fn unix_time_secs() -> u64 {
    match try_unix_time_secs() {
        Some(s) => s,
        None => 0,
    }
}

/// The nanoseconds since the Unix epoch by the machine's clock; zero where the clock reads
/// earlier than the epoch.
pub(crate) fn unix_time_nanos() -> u128 {
    match try_unix_time_nanos() {
        Some(n) => n,
        None => 0,
    }
}

/// The milliseconds since the Unix epoch by the machine's clock; zero where the clock cannot
/// be read as a moment after the epoch.
pub(crate) fn utc_now_millis() -> i64 {
    match try_utc_now_millis() {
        Some(n) => n,
        None => 0,
    }
}

/// The present moment in RFC 3339 form; the epoch itself where the clock cannot be read as a
/// moment after it.
pub(crate) fn utc_now_rfc3339() -> String {
    match try_utc_now_rfc3339() {
        Some(t) => t,
        None => "1970-01-01T00:00:00+00:00".to_string(),
    }
}

/// A name for the text that `chrono` writes for the Unix time `secs` (taken as an `i64`) in
/// the pattern `%Y-%m-%d %H:%M:%S`; none where the time is out of its range.
pub uninterp spec fn datetime_text(secs: u64) -> Option<Seq<char>>;

/// The first Unix time, in seconds, of the year 10000: before it `%Y` writes four digits.
pub const YEAR_10000_SECS: u64 = 253_402_300_800;

/// The civil date, as year, month and day, of the day `days` after 1970-01-01 in the
/// proleptic Gregorian calendar.
pub open spec fn civil_date(days: int) -> (int, int, int) {
    let z = days + 719_468;
    let era = z / 146_097;
    let doe = z - era * 146_097;
    let yoe = (doe - doe / 1460 + doe / 36_524 - doe / 146_096) / 365;
    let doy = doe - (365 * yoe + yoe / 4 - yoe / 100);
    let mp = (5 * doy + 2) / 153;
    let d = doy - (153 * mp + 2) / 5 + 1;
    let m = if mp < 10 { mp + 3 } else { mp - 9 };
    (yoe + era * 400 + if m <= 2 { 1int } else { 0int }, m, d)
}

/// The Unix time `secs` in UTC as `%Y-%m-%d %H:%M:%S` writes it, for a year of four digits.
pub open spec fn datetime_of(secs: nat) -> Seq<char> {
    let (y, m, d) = civil_date((secs / 86_400) as int);
    crate::text::decimal(y as nat) + seq!['-'] + two_digits(m as nat) + seq!['-'] + two_digits(d as nat) + seq![' ']
        + time_of_day(secs)
}

/// Calls `chrono::DateTime::from_timestamp(secs as i64, 0)` and formats the result with
/// `%Y-%m-%d %H:%M:%S`; the result is named `datetime_text`. Before the year 10000 it is
/// the date and time `datetime_of` gives.
#[verifier::external_body]
pub(crate) fn format_datetime(secs: u64) -> (res: Option<String>)
    ensures
        res matches Some(t) ==> datetime_text(secs) == Some(t@),
        res is None ==> datetime_text(secs) is None,
        secs < YEAR_10000_SECS ==> (res matches Some(t) ==> t@ == datetime_of(secs as nat)),
        secs < YEAR_10000_SECS ==> res is Some,
{
    match chrono::DateTime::from_timestamp(secs as i64, 0) {
        Some(dt) => Some(dt.format("%Y-%m-%d %H:%M:%S").to_string()),
        None => None,
    }
}

/// A bound below which every Unix time, in seconds, lies within chrono's range of dates (it
/// ends with the year 262142; this bound falls in the year 255479).
pub const CHRONO_SAFE_SECS: u64 = 8_000_000_000_000;

/// Two decimal digits for `n`, below one hundred, with a leading zero.
pub open spec fn two_digits(n: nat) -> Seq<char> {
    seq![crate::text::digit_char(n / 10), crate::text::digit_char(n % 10)]
}

/// The time of day of the Unix time `secs`, in UTC, as `%H:%M:%S` writes it.
pub open spec fn time_of_day(secs: nat) -> Seq<char> {
    let t = secs % 86_400;
    two_digits(t / 3600) + seq![':'] + two_digits((t % 3600) / 60) + seq![':'] + two_digits(t % 60)
}

/// Calls `chrono::DateTime::from_timestamp(secs as i64, 0)` and formats the result with
/// `%H:%M:%S`: for a time that fits in an `i64`, the hours, minutes and seconds of its time of
/// day, each in two digits; present for every time below `CHRONO_SAFE_SECS`. Whether a time
/// between that bound and the end of chrono's range gives text is not stated, nor the text for
/// a time beyond `i64::MAX`.
#[verifier::external_body]
pub(crate) fn format_time_of_day(secs: u64) -> (res: Option<String>)
    ensures
        secs < CHRONO_SAFE_SECS ==> res is Some,
        secs <= i64::MAX ==> (res matches Some(t) ==> t@ == time_of_day(secs as nat)),
{
    match chrono::DateTime::from_timestamp(secs as i64, 0) {
        Some(dt) => Some(dt.format("%H:%M:%S").to_string()),
        None => None,
    }
}

} // verus!
