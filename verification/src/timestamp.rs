//! Instants with an attached fixed offset from UTC, the civil dates and clock
//! readings they are built from, and the calendar operations that `chrono`
//! performs for the library.

use chrono::Datelike;
use chrono::TimeZone;
use chrono::Timelike;
use std::fmt::Write;
use vstd::prelude::*;

verus! {

/// Largest magnitude, in seconds, that a fixed offset from UTC may have
/// (exclusive): one day.
pub const OFFSET_LIMIT_SECS: i32 = 86_400;

/// An absolute instant together with the fixed offset from UTC under which it
/// was recorded. The offset is never a named zone and never follows
/// daylight-saving rules.
#[derive(Clone, Copy, Debug, PartialEq, Eq, Structural)]
pub struct Timestamp {
    /// Milliseconds since 1970-01-01T00:00:00 UTC.
    pub utc_millis: i64,
    /// Seconds east of UTC of the clock that recorded the instant.
    pub offset_secs: i32,
}

impl Timestamp {
    /// The offset lies strictly within one day of UTC.
    pub open spec fn wf(&self) -> bool {
        -OFFSET_LIMIT_SECS < self.offset_secs < OFFSET_LIMIT_SECS
    }

    /// The instant as a mathematical integer.
    pub open spec fn instant(&self) -> int {
        self.utc_millis as int
    }
}

/// Whether `secs` can serve as a fixed offset from UTC: strictly less than a
/// day either way.
pub open spec fn is_valid_offset(secs: int) -> bool {
    -OFFSET_LIMIT_SECS < secs < OFFSET_LIMIT_SECS
}

/// A calendar date in the proleptic Gregorian calendar.
#[derive(Clone, Copy, Debug, PartialEq, Eq, Structural)]
pub struct CivilDate {
    pub year: i32,
    /// 1 for January to 12 for December.
    pub month: u32,
    /// Day of the month, from 1.
    pub day: u32,
}

/// A reading of a wall clock.
#[derive(Clone, Copy, Debug, PartialEq, Eq, Structural)]
pub struct ClockTime {
    /// Whole seconds since midnight.
    pub seconds: u32,
    /// Nanoseconds within the second; a billion or more during a leap second.
    pub nanos: u32,
}

impl ClockTime {
    /// The hour of the day that the reading falls in.
    pub open spec fn spec_hour(&self) -> int {
        self.seconds as int / 3600
    }

    /// The hour of the day that the reading falls in.
    pub fn hour(&self) -> (h: u32)
        ensures
            h == self.spec_hour(),
    {
        self.seconds / 3600
    }
}

/// A calendar date with a clock reading, without any offset.
#[derive(Clone, Copy, Debug, PartialEq, Eq, Structural)]
pub struct CivilDateTime {
    pub date: CivilDate,
    pub clock: ClockTime,
}

/// The date that `chrono` reads from `text` under the format `format`.
pub uninterp spec fn parsed_date(text: Seq<char>, format: Seq<char>) -> Option<CivilDate>;

/// The clock reading that `chrono` reads from `text` under `format`.
pub uninterp spec fn parsed_clock(text: Seq<char>, format: Seq<char>) -> Option<ClockTime>;

/// The date and clock reading that `chrono` reads from `text` under `format`.
pub uninterp spec fn parsed_date_time(text: Seq<char>, format: Seq<char>) -> Option<
    CivilDateTime,
>;

/// The instant, in milliseconds since the epoch, at which a clock running
/// `offset_secs` east of UTC shows the given date and time.
pub uninterp spec fn instant_of_local(
    year: int,
    month: int,
    day: int,
    seconds: int,
    nanos: int,
    offset_secs: int,
) -> Option<i64>;

/// The instant, in milliseconds since the epoch, at which a clock running
/// `offset_secs` east of UTC shows the date and time that lie `seconds` after
/// 1970-01-01T00:00:00 on that clock.
pub uninterp spec fn instant_of_local_seconds(seconds: int, offset_secs: int) -> Option<i64>;

/// The day of the week of a date, in days since Sunday, or `None` where the
/// date does not exist.
pub uninterp spec fn weekday_of(year: int, month: int, day: int) -> Option<u32>;

/// The text that `chrono` writes for a date under the format `format`.
pub uninterp spec fn formatted_date(year: int, month: int, day: int, format: Seq<char>) -> Option<
    Seq<char>,
>;

/// The text that `chrono` writes for an instant, shown on a clock running
/// `offset_secs` east of UTC, under the format `format`.
pub uninterp spec fn formatted_instant(utc_millis: int, offset_secs: int, format: Seq<char>) -> Option<
    Seq<char>,
>;

/// Calls `chrono::NaiveDate::parse_from_str`. The result is `None` where
/// `chrono` reports an error, else the year, month and day of the date it
/// read.
#[verifier::external_body]
pub(crate) fn parse_date(text: &str, format: &str) -> (r: Option<CivilDate>)
    ensures
        r == parsed_date(text@, format@),
{
    let d = chrono::NaiveDate::parse_from_str(text, format).ok()?;
    Some(CivilDate { year: d.year(), month: d.month(), day: d.day() })
}

/// Calls `chrono::NaiveTime::parse_from_str`. The result is `None` where
/// `chrono` reports an error, else the seconds since midnight and the
/// nanoseconds of the time it read.
#[verifier::external_body]
pub(crate) fn parse_clock(text: &str, format: &str) -> (r: Option<ClockTime>)
    ensures
        r == parsed_clock(text@, format@),
{
    let t = chrono::NaiveTime::parse_from_str(text, format).ok()?;
    Some(ClockTime { seconds: t.num_seconds_from_midnight(), nanos: t.nanosecond() })
}

/// Calls `chrono::NaiveDateTime::parse_from_str`. The result is `None` where
/// `chrono` reports an error, else the fields of the date and time it read.
#[verifier::external_body]
pub(crate) fn parse_date_time(text: &str, format: &str) -> (r: Option<CivilDateTime>)
    ensures
        r == parsed_date_time(text@, format@),
{
    let t = chrono::NaiveDateTime::parse_from_str(text, format).ok()?;
    Some(
        CivilDateTime {
            date: CivilDate { year: t.year(), month: t.month(), day: t.day() },
            clock: ClockTime { seconds: t.num_seconds_from_midnight(), nanos: t.nanosecond() },
        },
    )
}

/// Calls `chrono::TimeZone::from_local_datetime` on a `chrono::FixedOffset`.
/// The result is `None` where `chrono` rejects the date, the time or the
/// offset, or where the local time has no single instant; else that instant.
#[verifier::external_body]
pub(crate) fn local_to_instant(date: &CivilDate, clock: &ClockTime, offset_secs: i32) -> (r: Option<
    i64,
>)
    ensures
        r == instant_of_local(
            date.year as int,
            date.month as int,
            date.day as int,
            clock.seconds as int,
            clock.nanos as int,
            offset_secs as int,
        ),
{
    let d = chrono::NaiveDate::from_ymd_opt(date.year, date.month, date.day)?;
    let t = chrono::NaiveTime::from_num_seconds_from_midnight_opt(clock.seconds, clock.nanos)?;
    let offset = chrono::FixedOffset::east_opt(offset_secs)?;
    offset.from_local_datetime(&d.and_time(t)).single().map(|dt| dt.timestamp_millis())
}

/// Calls `chrono::DateTime::from_timestamp` and reads the result as a local
/// time under a `chrono::FixedOffset`. The result is `None` where `chrono`
/// rejects the seconds or the offset, or where the local time has no single
/// instant; else that instant, which lies the offset before the local time,
/// under an offset of less than a day.
#[verifier::external_body]
pub(crate) fn local_seconds_to_instant(seconds: i64, offset_secs: i32) -> (r: Option<i64>)
    ensures
        r == instant_of_local_seconds(seconds as int, offset_secs as int),
        r matches Some(utc_millis) ==> is_valid_offset(offset_secs as int) && utc_millis == (seconds
            - offset_secs) * 1000,
{
    let naive = chrono::DateTime::from_timestamp(seconds, 0)?.naive_utc();
    let offset = chrono::FixedOffset::east_opt(offset_secs)?;
    naive.and_local_timezone(offset).single().map(|dt| dt.timestamp_millis())
}

/// Calls `chrono::Datelike::weekday` on the date. The result is `None` where
/// `chrono` rejects the date, else 0 for Sunday to 6 for Saturday.
#[verifier::external_body]
pub(crate) fn day_of_week(date: &CivilDate) -> (r: Option<u32>)
    ensures
        r == weekday_of(date.year as int, date.month as int, date.day as int),
{
    let d = chrono::NaiveDate::from_ymd_opt(date.year, date.month, date.day)?;
    Some(d.weekday().num_days_from_sunday())
}

/// Calls `chrono::NaiveDate::format`. The result is `None` where `chrono`
/// rejects the date or cannot write under the format, else the text written.
#[verifier::external_body]
pub(crate) fn format_date(date: &CivilDate, format: &str) -> (r: Option<String>)
    ensures
        match r {
            Some(s) => formatted_date(date.year as int, date.month as int, date.day as int, format@)
                == Some(s@),
            None => formatted_date(date.year as int, date.month as int, date.day as int, format@)
                is None,
        },
{
    let d = chrono::NaiveDate::from_ymd_opt(date.year, date.month, date.day)?;
    let mut out = String::new();
    write!(out, "{}", d.format(format)).ok()?;
    Some(out)
}

/// Calls `chrono::DateTime::format` on the instant shown under its offset.
/// The result is `None` where `chrono` rejects the instant or the offset or
/// cannot write under the format, else the text written.
#[verifier::external_body]
pub(crate) fn format_timestamp(at: &Timestamp, format: &str) -> (r: Option<String>)
    ensures
        match r {
            Some(s) => formatted_instant(at.utc_millis as int, at.offset_secs as int, format@)
                == Some(s@),
            None => formatted_instant(at.utc_millis as int, at.offset_secs as int, format@) is None,
        },
{
    let offset = chrono::FixedOffset::east_opt(at.offset_secs)?;
    let shown = chrono::DateTime::from_timestamp_millis(at.utc_millis)?.with_timezone(&offset);
    let mut out = String::new();
    write!(out, "{}", shown.format(format)).ok()?;
    Some(out)
}

} // verus!
