//! Points in time as they are written.
use crate::domain::Timestamp;
use chrono::{Datelike, TimeZone};
use vstd::prelude::*;

verus! {

/// The first year that a calendar day may lie in.
pub const FIRST_YEAR: i32 = -262_143;

/// The last year that a calendar day may lie in.
pub const LAST_YEAR: i32 = 262_142;

/// The start of the year -262143.
pub const FIRST_INSTANT: i64 = -8_334_601_228_800_000_000;

/// The end of the year 262142.
pub const LAST_INSTANT: i64 = 8_210_266_876_799_999_999;

/// The time has a date.
pub open spec fn datable(at: Timestamp) -> bool {
    FIRST_INSTANT <= at <= LAST_INSTANT
}

/// Whether a time has a date.
pub fn is_datable(at: Timestamp) -> (r: bool)
    ensures
        r == datable(at),
{
    FIRST_INSTANT <= at && at <= LAST_INSTANT
}

/// The text of a time: its date and its time of day in UTC.
pub uninterp spec fn instant_text(at: i64) -> Seq<char>;

/// `chrono::DateTime::from_timestamp_micros`, which takes every time from the first
/// to the last, and `chrono::DateTime::to_rfc3339_opts` with as many digits of the
/// second as it takes and a `Z` for UTC: the text of the time, which nothing but the
/// time decides.
#[verifier::external_body]
pub(crate) fn write_instant(at: i64) -> (r: String)
    requires
        datable(at),
    ensures
        r@ == instant_text(at),
{
    let time = chrono::DateTime::from_timestamp_micros(at).unwrap_or_default();
    time.to_rfc3339_opts(chrono::SecondsFormat::AutoSi, true)
}

/// The day of the UTC calendar that a time falls on: its year, month and day.
pub uninterp spec fn instant_day(at: i64) -> (i32, u32, u32);

/// `chrono::DateTime::from_timestamp_micros`, which takes every time from the first
/// to the last, and the parts of its date.
#[verifier::external_body]
pub(crate) fn day_of(at: i64) -> (r: (i32, u32, u32))
    requires
        datable(at),
    ensures
        r == instant_day(at),
        FIRST_YEAR <= r.0 <= LAST_YEAR,
        1 <= r.1 <= 12,
        1 <= r.2 <= 31,
{
    let time = chrono::DateTime::from_timestamp_micros(at).unwrap_or_default();
    (time.year(), time.month(), time.day())
}

/// The first moment of a day of the UTC calendar, if there is the day.
pub uninterp spec fn day_start(year: i32, month: u32, day: u32) -> Option<i64>;

/// `chrono::TimeZone::with_ymd_and_hms` of UTC at midnight: the time, which falls on
/// the day. Every month of every year from the first to the last has a first day.
#[verifier::external_body]
pub(crate) fn start_of(year: i32, month: u32, day: u32) -> (r: Option<i64>)
    ensures
        r == day_start(year, month, day),
        r matches Some(at) ==> datable(at) && instant_day(at) == (year, month, day),
        FIRST_YEAR <= year <= LAST_YEAR && 1 <= month <= 12 && day == 1 ==> r is Some,
{
    let time = chrono::Utc.with_ymd_and_hms(year, month, day, 0, 0, 0).single();
    time.map(|time| time.timestamp_micros())
}

/// The time that a text says, if it says one: a date, a time of day and how far from
/// UTC that is.
pub uninterp spec fn instant_at(text: Seq<char>) -> Option<i64>;

/// `chrono::DateTime::parse_from_rfc3339`: the time in microseconds, where the text is
/// one.
#[verifier::external_body]
pub(crate) fn read_instant(text: &str) -> (r: Option<i64>)
    ensures
        r == instant_at(text@),
{
    let time = chrono::DateTime::parse_from_rfc3339(text).ok();
    time.map(|time| time.timestamp_micros())
}

} // verus!
