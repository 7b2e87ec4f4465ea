//! Local calendar values and the time-zone conversions that chrono and
//! chrono-tz perform for them. A zone is named by its IANA identifier.
use chrono::Datelike;
use chrono::TimeZone;
use chrono::Timelike;
use vstd::arithmetic::div_mod::lemma_mod_multiples_vanish;
use vstd::prelude::*;

verus! {

/// A calendar date as its fields; nothing checks that the day exists in the
/// month.
#[derive(Clone, Copy, Debug, PartialEq, Eq)]
pub struct LocalDate {
    pub year: i32,
    pub month: u32,
    pub day: u32,
}

/// A wall-clock reading in some zone.
#[derive(Clone, Copy, Debug, PartialEq, Eq)]
pub struct LocalDateTime {
    pub year: i32,
    pub month: u32,
    pub day: u32,
    pub hour: u32,
    pub minute: u32,
    pub second: u32,
}

/// The wall-clock reading in the zone named `zone` at `timestamp` seconds
/// after the Unix epoch; none when the zone is unknown or the instant is out
/// of chrono's range.
pub uninterp spec fn zone_local_of(zone: Seq<char>, timestamp: i64) -> Option<LocalDateTime>;

/// The instants, in seconds after the Unix epoch, at which a zone shows a
/// wall-clock reading.
pub enum ZoneReading {
    /// Exactly once.
    Single(i64),
    /// Twice, as when the clocks are turned back: the earlier and the later.
    Ambiguous(i64, i64),
    /// Never: the clocks skip it, or the fields name no date or time.
    Nonexistent,
}

/// Fields that name a calendar date and a time of day.
pub open spec fn names_a_reading(l: LocalDateTime) -> bool {
    &&& 1 <= l.month <= 12
    &&& 1 <= l.day <= days_in_month(l.year as int, l.month as int)
    &&& l.hour < 24
    &&& l.minute < 60
    &&& l.second < 60
}

/// When the zone named `zone` shows `local`; none when the zone is unknown.
pub uninterp spec fn zone_instant_of(zone: Seq<char>, local: LocalDateTime) -> Option<ZoneReading>;

/// The ranges that chrono documents for the fields of a reading; years stay
/// within what `NaiveDate` covers, give or take a day.
pub open spec fn in_chrono_range(l: LocalDateTime) -> bool {
    &&& -262145 <= l.year <= 262143
    &&& 1 <= l.month <= 12
    &&& 1 <= l.day <= 31
    &&& l.hour < 24
    &&& l.minute < 60
    &&& l.second < 60
}

/// Relies on chrono-tz's `Tz::from_str` to find the zone, on chrono's
/// `DateTime::from_timestamp` and `DateTime::with_timezone` for the
/// conversion, and on `Datelike` / `Timelike` of `DateTime`, whose documented
/// ranges are month 1-12, day 1-31, hour 0-23, minute and second 0-59. These
/// read the local time without the range check of `naive_local`, so no
/// instant makes them panic.
#[verifier::external_body]
pub(crate) fn local_time_in_zone(zone: &str, timestamp: i64) -> (r: Option<LocalDateTime>)
    ensures
        r == zone_local_of(zone@, timestamp),
        r matches Some(l) ==> in_chrono_range(l),
{
    let tz = zone.parse::<chrono_tz::Tz>().ok()?;
    let l = chrono::DateTime::from_timestamp(timestamp, 0)?.with_timezone(&tz);
    Some(
        LocalDateTime {
            year: l.year(),
            month: l.month(),
            day: l.day(),
            hour: l.hour(),
            minute: l.minute(),
            second: l.second(),
        },
    )
}

/// Relies on chrono-tz's `Tz::from_str` to find the zone and on chrono's
/// `TimeZone::with_ymd_and_hms`, whose result is given variant for variant,
/// each instant as seconds after the Unix epoch (`DateTime::timestamp`).
/// Fields that name no date or time (`NaiveDate::from_ymd_opt`,
/// `NaiveDate::and_hms_opt`) give `LocalResult::None`.
#[verifier::external_body]
pub(crate) fn instant_in_zone(zone: &str, local: LocalDateTime) -> (r: Option<ZoneReading>)
    ensures
        r == zone_instant_of(zone@, local),
        !names_a_reading(local) ==> (r is None || r == Some(ZoneReading::Nonexistent)),
{
    let tz = zone.parse::<chrono_tz::Tz>().ok()?;
    match tz.with_ymd_and_hms(
        local.year,
        local.month,
        local.day,
        local.hour,
        local.minute,
        local.second,
    ) {
        chrono::LocalResult::Single(t) => Some(ZoneReading::Single(t.timestamp())),
        chrono::LocalResult::Ambiguous(a, b) => Some(
            ZoneReading::Ambiguous(a.timestamp(), b.timestamp()),
        ),
        chrono::LocalResult::None => Some(ZoneReading::Nonexistent),
    }
}

/// Gregorian leap years.
pub open spec fn is_leap_year(y: int) -> bool {
    (y % 4 == 0 && y % 100 != 0) || y % 400 == 0
}

/// Number of days in month `m` of year `y`.
pub open spec fn days_in_month(y: int, m: int) -> int {
    if m == 2 {
        if is_leap_year(y) {
            29
        } else {
            28
        }
    } else if m == 4 || m == 6 || m == 9 || m == 11 {
        30
    } else {
        31
    }
}

/// The calendar day before `d`.
pub open spec fn day_before(d: LocalDate) -> LocalDate {
    if d.day > 1 {
        LocalDate { year: d.year, month: d.month, day: (d.day - 1) as u32 }
    } else if d.month > 1 {
        LocalDate {
            year: d.year,
            month: (d.month - 1) as u32,
            day: days_in_month(d.year as int, d.month - 1) as u32,
        }
    } else {
        LocalDate { year: (d.year - 1) as i32, month: 12, day: 31 }
    }
}

/// The date part of a wall-clock reading.
pub open spec fn date_of(l: LocalDateTime) -> LocalDate {
    LocalDate { year: l.year, month: l.month, day: l.day }
}

fn is_leap(y: i32) -> (r: bool)
    requires
        y >= -262145,
    ensures
        r == is_leap_year(y as int),
{
    // Shifting by a multiple of 400 years keeps the answer and makes it positive.
    let u = (y as i64 + 400_000) as u64;
    proof {
        lemma_mod_multiples_vanish(100_000, y as int, 4);
        lemma_mod_multiples_vanish(4_000, y as int, 100);
        lemma_mod_multiples_vanish(1_000, y as int, 400);
    }
    (u % 4 == 0 && u % 100 != 0) || u % 400 == 0
}

/// The calendar day before `d`.
pub fn previous_day(d: LocalDate) -> (r: LocalDate)
    requires
        d.year >= -262145,
    ensures
        r == day_before(d),
{
    if d.day > 1 {
        LocalDate { year: d.year, month: d.month, day: d.day - 1 }
    } else if d.month > 1 {
        let m = d.month - 1;
        let days: u32 = if m == 2 {
            if is_leap(d.year) {
                29
            } else {
                28
            }
        } else if m == 4 || m == 6 || m == 9 || m == 11 {
            30
        } else {
            31
        };
        LocalDate { year: d.year, month: m, day: days }
    } else {
        LocalDate { year: d.year - 1, month: 12, day: 31 }
    }
}

} // verus!
