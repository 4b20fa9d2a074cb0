//! Calendar values the dashboard reads from `chrono` / `chrono-tz`: local dates and times in
//! the two header time zones, ISO dates parsed from contribution markup, and today's date.

use chrono::{Datelike, Timelike};
use vstd::prelude::*;

verus! {

/// Smallest Unix timestamp (seconds) of a `chrono::DateTime<Utc>`: -262143-01-01T00:00:00Z.
pub const MIN_TIMESTAMP: i64 = -8334601228800;

/// Largest Unix timestamp (seconds) of a `chrono::DateTime<Utc>`: +262142-12-31T23:59:59Z.
pub const MAX_TIMESTAMP: i64 = 8210266876799;

/// Day number (days from the Common Era, 0001-01-01 is day 1) of the earliest `NaiveDate`.
pub const MIN_DAY: i32 = -95746129;

/// Day number of the latest `NaiveDate`.
pub const MAX_DAY: i32 = 95745399;

/// A day of the week.
#[derive(Clone, Copy, Debug, PartialEq, Eq, Structural)]
pub enum Weekday {
    Mon,
    Tue,
    Wed,
    Thu,
    Fri,
    Sat,
    Sun,
}

/// The weekday that is `i` days after Monday (0 = Monday, 6 = Sunday).
pub open spec fn weekday_from_monday(i: u32) -> Weekday {
    if i == 0 {
        Weekday::Mon
    } else if i == 1 {
        Weekday::Tue
    } else if i == 2 {
        Weekday::Wed
    } else if i == 3 {
        Weekday::Thu
    } else if i == 4 {
        Weekday::Fri
    } else if i == 5 {
        Weekday::Sat
    } else {
        Weekday::Sun
    }
}

impl Weekday {
    /// The weekday that is `i` days after Monday.
    pub fn from_monday_index(i: u32) -> (w: Weekday)
        requires
            i < 7,
        ensures
            w == weekday_from_monday(i),
    {
        match i {
            0 => Weekday::Mon,
            1 => Weekday::Tue,
            2 => Weekday::Wed,
            3 => Weekday::Thu,
            4 => Weekday::Fri,
            5 => Weekday::Sat,
            _ => Weekday::Sun,
        }
    }
}

/// The time zones whose local dates the header shows.
#[derive(Clone, Copy, Debug, PartialEq, Eq, Structural)]
pub enum Zone {
    /// Europe/Madrid.
    Madrid,
    /// America/Chicago (St. Louis).
    Chicago,
}

/// A local calendar date: year, month (1 to 12), day of month (1 to 31) and weekday, counted
/// in days after Monday.
#[derive(Clone, Copy, Debug, PartialEq, Eq, Structural)]
pub struct CivilDate {
    pub year: i32,
    pub month: u32,
    pub day: u32,
    pub weekday_from_monday: u32,
}

/// The local date, in `zone`, of the instant `ts` seconds after the Unix epoch, as the
/// time-zone database of `chrono-tz` gives it.
pub uninterp spec fn zoned_date(ts: int, zone: Zone) -> CivilDate;

/// The local wall-clock time, in `zone`, of the instant `ts` seconds after the Unix epoch, as
/// hour and minute, as the time-zone database of `chrono-tz` gives it.
pub uninterp spec fn zoned_time(ts: int, zone: Zone) -> (u32, u32);

/// The day number of the date that `NaiveDate::parse_from_str(text, "%Y-%m-%d")` reads from
/// `text`, or `None` where it rejects the text.
pub uninterp spec fn parsed_iso_day(text: Seq<char>) -> Option<i32>;

/// The local date of a Unix timestamp in one of the header zones.
///
/// Trusted: `chrono::DateTime::from_timestamp` followed by `with_timezone` with the
/// `chrono-tz` zone, read back through `Datelike`. Inside the timestamp range of
/// `DateTime<Utc>` `from_timestamp` returns `Some`; `month()`, `day()` and
/// `weekday().num_days_from_monday()` are documented to lie in 1..=12, 1..=31 and 0..=6.
/// The contract names the date (`zoned_date`) and states those ranges; which date the zone
/// database yields is not stated.
#[verifier::external_body]
pub fn civil_date_in(ts: i64, zone: Zone) -> (d: CivilDate)
    requires
        MIN_TIMESTAMP <= ts <= MAX_TIMESTAMP,
    ensures
        d == zoned_date(ts as int, zone),
        1 <= d.month <= 12,
        1 <= d.day <= 31,
        d.weekday_from_monday < 7,
{
    let tz = match zone {
        Zone::Madrid => chrono_tz::Europe::Madrid,
        Zone::Chicago => chrono_tz::America::Chicago,
    };
    let local = chrono::DateTime::from_timestamp(ts, 0).unwrap().with_timezone(&tz);
    CivilDate {
        year: local.year(),
        month: local.month(),
        day: local.day(),
        weekday_from_monday: local.weekday().num_days_from_monday(),
    }
}

/// The local hour and minute of a Unix timestamp in one of the header zones.
///
/// Trusted: `chrono::DateTime::from_timestamp` followed by `with_timezone` with the
/// `chrono-tz` zone, read back through `Timelike::hour` and `Timelike::minute`. Inside the
/// timestamp range of `DateTime<Utc>` `from_timestamp` returns `Some`; `hour()` and
/// `minute()` are documented to lie in 0..=23 and 0..=59. The contract names the time
/// (`zoned_time`) and states those ranges; which offset the zone database applies is not
/// stated.
#[verifier::external_body]
pub fn clock_in(ts: i64, zone: Zone) -> (r: (u32, u32))
    requires
        MIN_TIMESTAMP <= ts <= MAX_TIMESTAMP,
    ensures
        r == zoned_time(ts as int, zone),
        r.0 < 24,
        r.1 < 60,
{
    let tz = match zone {
        Zone::Madrid => chrono_tz::Europe::Madrid,
        Zone::Chicago => chrono_tz::America::Chicago,
    };
    let local = chrono::DateTime::from_timestamp(ts, 0).unwrap().with_timezone(&tz);
    (local.hour(), local.minute())
}

/// Parses a `YYYY-MM-DD` date into its day number.
///
/// Trusted: `chrono::NaiveDate::parse_from_str` with the format `%Y-%m-%d`, and
/// `Datelike::num_days_from_ce` on the date it returns. The contract names the result
/// (`parsed_iso_day`) and states that a parsed day lies in the range of `NaiveDate`; which
/// texts chrono accepts is not stated.
#[verifier::external_body]
pub fn parse_iso_day(text: &str) -> (r: Option<i32>)
    ensures
        r == parsed_iso_day(text@),
        r matches Some(d) ==> MIN_DAY <= d <= MAX_DAY,
{
    match chrono::NaiveDate::parse_from_str(text, "%Y-%m-%d") {
        Ok(date) => Some(date.num_days_from_ce()),
        Err(_) => None,
    }
}

/// Today's date in UTC, as a day number, or `None` where the clock cannot be read as a date.
///
/// Trusted: `std::time::SystemTime::now` and `duration_since(UNIX_EPOCH)`, then
/// `chrono::DateTime::from_timestamp` on the whole seconds, `date_naive` and
/// `num_days_from_ce`. A clock set before the Unix epoch, or one beyond the range of
/// `DateTime<Utc>`, gives `None`. The day depends on the clock, so the contract states only
/// that a returned day lies in `NaiveDate`'s range.
#[verifier::external_body]
pub fn current_utc_day() -> (r: Option<i32>)
    ensures
        r matches Some(d) ==> MIN_DAY <= d <= MAX_DAY,
{
    let since = match std::time::SystemTime::now().duration_since(std::time::UNIX_EPOCH) {
        Ok(d) => d,
        Err(_) => return None,
    };
    let secs = match i64::try_from(since.as_secs()) {
        Ok(s) => s,
        Err(_) => return None,
    };
    match chrono::DateTime::from_timestamp(secs, 0) {
        Some(t) => Some(t.date_naive().num_days_from_ce()),
        None => None,
    }
}

} // verus!
