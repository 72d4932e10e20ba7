use chrono::Datelike;
use chrono::TimeZone;
use vstd::prelude::*;

use crate::text::text_eq;

verus! {

/// Seconds in a day.
pub const DAY: i64 = 86_400;

/// Coarse time window, Unix seconds in UTC, both ends included.
#[derive(Clone, Copy, Debug, PartialEq, Eq, Structural)]
pub struct TimeWindow {
    pub start: i64,
    pub end: i64,
}

/// The Unix seconds of a UTC civil date-time, as chrono computes it.
pub uninterp spec fn utc_timestamp_of(
    year: int,
    month: int,
    day: int,
    hour: int,
    min: int,
    sec: int,
) -> Option<i64>;

/// The UTC calendar year and month of an instant, as chrono computes them.
pub uninterp spec fn utc_year_month_of(secs: int) -> Option<(i32, u32)>;

/// Relies on chrono's `TimeZone::with_ymd_and_hms` for `Utc`, read through
/// `single` and `DateTime::timestamp`: the Unix seconds of a civil date-time,
/// none where that date-time does not exist.
#[verifier::external_body]
fn utc_timestamp(year: i32, month: u32, day: u32, hour: u32, min: u32, sec: u32) -> (r: Option<i64>)
    ensures
        r == utc_timestamp_of(year as int, month as int, day as int, hour as int, min as int, sec as int),
{
    chrono::Utc.with_ymd_and_hms(year, month, day, hour, min, sec).single().map(|t| t.timestamp())
}

/// Relies on chrono's `DateTime::from_timestamp` with `Datelike::year` and
/// `Datelike::month`: the calendar year and month (1 to 12) of an instant,
/// none outside chrono's range.
#[verifier::external_body]
fn utc_year_month(secs: i64) -> (r: Option<(i32, u32)>)
    ensures
        r == utc_year_month_of(secs as int),
        r matches Some(ym) ==> 1 <= ym.1 <= 12,
{
    chrono::DateTime::from_timestamp(secs, 0).map(|d| (d.year(), d.month()))
}

pub open spec fn fits_i64(x: int) -> bool {
    i64::MIN <= x <= i64::MAX
}

/// The window `[s, e]`, when both ends fit the representation.
pub open spec fn window_of(s: int, e: int) -> Option<TimeWindow> {
    if fits_i64(s) && fits_i64(e) {
        Some(TimeWindow { start: s as i64, end: e as i64 })
    } else {
        None
    }
}

/// First second of the UTC day holding `now`.
pub open spec fn midnight(now: int) -> int {
    (now / (DAY as int)) * (DAY as int)
}

/// Days since the Monday of the ISO week holding `now` (1970-01-01 was a Thursday).
pub open spec fn days_from_monday(now: int) -> int {
    (now / (DAY as int) + 3) % 7
}

/// The ISO week that starts `offset` weeks after the one holding `now`.
pub open spec fn week_window(now: int, offset: int) -> Option<TimeWindow> {
    let s = midnight(now) + (7 * offset - days_from_monday(now)) * (DAY as int);
    window_of(s, s + 7 * (DAY as int) - 1)
}

/// The calendar month `(year, month)`: its first to its last second.
pub open spec fn month_window(year: int, month: int) -> Option<TimeWindow> {
    let (ny, nm) = if month == 12 { (year + 1, 1) } else { (year, month + 1) };
    if ny > i32::MAX {
        None
    } else {
        match (utc_timestamp_of(year, month, 1, 0, 0, 0), utc_timestamp_of(ny, nm, 1, 0, 0, 0)) {
            (Some(s), Some(n)) => window_of(s as int, n as int - 1),
            _ => None,
        }
    }
}

/// Quarter `q` of `year`, with a week of slack after the 28th of its last month.
pub open spec fn quarter_window(year: int, q: int) -> Option<TimeWindow> {
    match (utc_timestamp_of(year, 3 * q - 2, 1, 0, 0, 0), utc_timestamp_of(year, 3 * q, 28, 23, 59, 59)) {
        (Some(s), Some(e)) => window_of(s as int, e as int + 7 * (DAY as int)),
        _ => None,
    }
}

/// The number of a quarter phrase `q1` to `q4`, zero for any other text.
pub open spec fn quarter_of(p: Seq<char>) -> int {
    if p == "q1"@ {
        1
    } else if p == "q2"@ {
        2
    } else if p == "q3"@ {
        3
    } else if p == "q4"@ {
        4
    } else {
        0
    }
}

/// The window that a time phrase designates relative to `now`.
pub open spec fn phrase_window(p: Seq<char>, now: int) -> Option<TimeWindow> {
    if p == "year-end"@ || p == "year end"@ {
        match utc_year_month_of(now) {
            Some(ym) => match utc_timestamp_of(ym.0 as int, 12, 31, 23, 59, 59) {
                Some(e) => window_of(now, e as int),
                None => None,
            },
            None => None,
        }
    } else if p == "this week"@ {
        week_window(now, 0)
    } else if p == "next week"@ {
        week_window(now, 1)
    } else if p == "this month"@ || p == "next month"@ {
        match utc_year_month_of(now) {
            Some(ym) => if p == "this month"@ {
                month_window(ym.0 as int, ym.1 as int)
            } else if ym.1 == 12 {
                if ym.0 as int + 1 <= i32::MAX {
                    month_window(ym.0 as int + 1, 1)
                } else {
                    None
                }
            } else {
                month_window(ym.0 as int, ym.1 as int + 1)
            },
            None => None,
        }
    } else if quarter_of(p) != 0 {
        match utc_year_month_of(now) {
            Some(ym) => quarter_window(ym.0 as int, quarter_of(p)),
            None => None,
        }
    } else {
        None
    }
}

fn week_of(now: i64, offset: i64) -> (r: Option<TimeWindow>)
    requires
        offset == 0 || offset == 1,
    ensures
        r == week_window(now as int, offset as int),
{
    let day_index = now.checked_div_euclid(DAY).unwrap();
    let rem = day_index.checked_rem_euclid(7).unwrap();
    let dfm: i64 = (rem + 3) % 7;
    assert(dfm == days_from_monday(now as int)) by {
        let d = day_index as int;
        assert((d % 7 + 3) % 7 == (d + 3) % 7) by (nonlinear_arith)
            requires
                0 <= d % 7 < 7,
        ;
    }
    let start: i128 = (day_index as i128) * (DAY as i128) + ((7 * offset - dfm) as i128) * (DAY as i128);
    let end: i128 = start + 7 * (DAY as i128) - 1;
    if start < i64::MIN as i128 || start > i64::MAX as i128 || end < i64::MIN as i128 || end > i64::MAX as i128 {
        None
    } else {
        Some(TimeWindow { start: start as i64, end: end as i64 })
    }
}

fn month_of(year: i32, month: u32) -> (r: Option<TimeWindow>)
    requires
        1 <= month <= 12,
    ensures
        r == month_window(year as int, month as int),
{
    if month == 12 && year == i32::MAX {
        return None;
    }
    let (ny, nm) = if month == 12 { (year + 1, 1u32) } else { (year, month + 1) };
    match (utc_timestamp(year, month, 1, 0, 0, 0), utc_timestamp(ny, nm, 1, 0, 0, 0)) {
        (Some(s), Some(n)) => {
            if n == i64::MIN {
                None
            } else {
                Some(TimeWindow { start: s, end: n - 1 })
            }
        },
        _ => None,
    }
}

fn quarter_of_year(year: i32, q: u32) -> (r: Option<TimeWindow>)
    requires
        1 <= q <= 4,
    ensures
        r == quarter_window(year as int, q as int),
{
    match (utc_timestamp(year, 3 * q - 2, 1, 0, 0, 0), utc_timestamp(year, 3 * q, 28, 23, 59, 59)) {
        (Some(s), Some(e)) => {
            if e > i64::MAX - 7 * DAY {
                None
            } else {
                Some(TimeWindow { start: s, end: e + 7 * DAY })
            }
        },
        _ => None,
    }
}

/// Maps a time phrase (as matched, in lower case) to its window relative to
/// `now`: `year-end` runs from `now` to the last second of the year, `this
/// week` and `next week` are ISO weeks, `this month` and `next month` are
/// calendar months, `q1` to `q4` are quarters of the current year with a week
/// of slack at the tail. Any other phrase gives none.
pub fn map_phrase_to_window(phrase: &str, now: i64) -> (r: Option<TimeWindow>)
    ensures
        r == phrase_window(phrase@, now as int),
{
    if text_eq(phrase, "year-end") || text_eq(phrase, "year end") {
        match utc_year_month(now) {
            Some((y, _m)) => match utc_timestamp(y, 12, 31, 23, 59, 59) {
                Some(e) => Some(TimeWindow { start: now, end: e }),
                None => None,
            },
            None => None,
        }
    } else if text_eq(phrase, "this week") {
        week_of(now, 0)
    } else if text_eq(phrase, "next week") {
        week_of(now, 1)
    } else if text_eq(phrase, "this month") || text_eq(phrase, "next month") {
        match utc_year_month(now) {
            Some((y, m)) => {
                if text_eq(phrase, "this month") {
                    month_of(y, m)
                } else if m == 12 {
                    if y == i32::MAX {
                        None
                    } else {
                        month_of(y + 1, 1)
                    }
                } else {
                    month_of(y, m + 1)
                }
            },
            None => None,
        }
    } else {
        let q: u32 = if text_eq(phrase, "q1") {
            1
        } else if text_eq(phrase, "q2") {
            2
        } else if text_eq(phrase, "q3") {
            3
        } else if text_eq(phrase, "q4") {
            4
        } else {
            0
        };
        if q == 0 {
            None
        } else {
            match utc_year_month(now) {
                Some((y, _m)) => quarter_of_year(y, q),
                None => None,
            }
        }
    }
}

} // verus!
