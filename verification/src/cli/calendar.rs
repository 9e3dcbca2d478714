//! Moments as people read them.
use vstd::prelude::*;
use vstd::string::*;

use crate::text::{push_zero_padded, zero_padded};

verus! {

/// Whether a year of the Gregorian calendar has 366 days.
pub open spec fn is_leap(year: int) -> bool {
    year % 4 == 0 && (year % 100 != 0 || year % 400 == 0)
}

/// The days of a month.
pub open spec fn month_len(year: int, month: int) -> int {
    if month == 2 {
        if is_leap(year) {
            29
        } else {
            28
        }
    } else if month == 4 || month == 6 || month == 9 || month == 11 {
        30
    } else {
        31
    }
}

/// The days of a year before a month.
pub open spec fn days_before_month(year: int, month: int) -> int
    decreases month,
{
    if month <= 1 {
        0
    } else {
        days_before_month(year, month - 1) + month_len(year, month - 1)
    }
}

/// The days from the first of January of the year one to that of `year`.
pub open spec fn days_before_year(year: int) -> int {
    365 * (year - 1) + (year - 1) / 4 - (year - 1) / 100 + (year - 1) / 400
}

/// Whether there is such a day.
pub open spec fn is_date(year: int, month: int, day: int) -> bool {
    1 <= month <= 12 && 1 <= day <= month_len(year, month)
}

/// The days from the first of January 1970 to a date.
pub open spec fn day_number(year: int, month: int, day: int) -> int {
    days_before_year(year) + days_before_month(year, month) + day - 1 - 719_162
}

/// Each year is as long as its months together.
pub proof fn law_years_follow_each_other(year: int)
    ensures
        days_before_year(year + 1) - days_before_year(year) == days_before_month(year, 12)
            + month_len(year, 12),
        days_before_year(year + 1) - days_before_year(year) == if is_leap(year) {
            366int
        } else {
            365
        },
        days_before_year(1970) == 719_162,
{
    reveal_with_fuel(days_before_month, 12);
}

/// The days before a year of a cycle of 400 that starts in March.
spec fn days_before_yoe(yoe: int) -> int {
    365 * yoe + yoe / 4 - yoe / 100
}

/// The year of the cycle that a day of the cycle falls in.
proof fn lemma_year_of_cycle(doe: int)
    requires
        0 <= doe < 146_097,
    ensures
        ({
            let yoe = (doe - doe / 1460 + doe / 36524 - doe / 146_096) / 365;
            &&& 0 <= yoe < 400
            &&& 0 <= doe - days_before_yoe(yoe)
            &&& doe - days_before_yoe(yoe) <= 365
            &&& doe - days_before_yoe(yoe) == 365 ==> is_leap(yoe + 1)
        }),
{
}

/// The month, counted from March, that a day of a year from March falls in.
proof fn lemma_month_of_year(doy: int)
    requires
        0 <= doy <= 365,
    ensures
        ({
            let mp = (5 * doy + 2) / 153;
            let d = doy - (153 * mp + 2) / 5 + 1;
            &&& 0 <= mp <= 11
            &&& 1 <= d
            &&& d <= 31
            &&& mp == 1 || mp == 3 || mp == 6 || mp == 8 ==> d <= 30
            &&& mp == 11 ==> d <= 29
            &&& mp == 11 && d == 29 ==> doy == 365
        }),
{
}

/// The days of a year before a month, for each month.
proof fn lemma_days_before(year: int)
    ensures
        ({
            let l = if is_leap(year) {
                1int
            } else {
                0
            };
            &&& days_before_month(year, 1) == 0
            &&& days_before_month(year, 2) == 31
            &&& days_before_month(year, 3) == 59 + l
            &&& days_before_month(year, 4) == 90 + l
            &&& days_before_month(year, 5) == 120 + l
            &&& days_before_month(year, 6) == 151 + l
            &&& days_before_month(year, 7) == 181 + l
            &&& days_before_month(year, 8) == 212 + l
            &&& days_before_month(year, 9) == 243 + l
            &&& days_before_month(year, 10) == 273 + l
            &&& days_before_month(year, 11) == 304 + l
            &&& days_before_month(year, 12) == 334 + l
        }),
{
    reveal_with_fuel(days_before_month, 12);
}

/// A year of a cycle is leap as its year is.
proof fn lemma_cycle(era: int, yoe: int)
    requires
        0 <= yoe < 400,
    ensures
        is_leap(400 * era + yoe) == is_leap(yoe),
        is_leap(400 * era + yoe + 1) == is_leap(yoe + 1),
        days_before_year(400 * era + yoe + 1) == 146_097 * era + days_before_yoe(yoe),
{
    let y = 400 * era + yoe;
    assert(y / 4 == 100 * era + yoe / 4);
    assert(y / 100 == 4 * era + yoe / 100);
    assert(y / 400 == era + yoe / 400);
}

/// What a day is called: year, month and day.
pub open spec fn names_day(days: int, year: int, month: int, day: int) -> bool {
    is_date(year, month, day) && day_number(year, month, day) == days
}

/// No day has two names.
pub proof fn law_one_name(days: int, y1: int, m1: int, d1: int, y2: int, m2: int, d2: int)
    requires
        names_day(days, y1, m1, d1),
        names_day(days, y2, m2, d2),
    ensures
        y1 == y2 && m1 == m2 && d1 == d2,
{
    lemma_days_before(y1);
    lemma_days_before(y2);
    law_years_follow_each_other(y1);
    law_years_follow_each_other(y2);
    if y1 < y2 {
        lemma_years_grow(y1 + 1, y2);
    } else if y2 < y1 {
        lemma_years_grow(y2 + 1, y1);
    }
}

proof fn lemma_years_grow(a: int, b: int)
    requires
        a <= b,
    ensures
        days_before_year(a) <= days_before_year(b),
    decreases b - a,
{
    if a < b {
        lemma_years_grow(a, b - 1);
        law_years_follow_each_other(b - 1);
    }
}

/// The parts of a date by the day of its cycle of 400 years from March.
proof fn lemma_date_of_cycle(era: int, doe: int)
    requires
        0 <= doe < 146_097,
    ensures
        ({
            let yoe = (doe - doe / 1460 + doe / 36524 - doe / 146_096) / 365;
            let doy = doe - (365 * yoe + yoe / 4 - yoe / 100);
            let mp = (5 * doy + 2) / 153;
            let d = doy - (153 * mp + 2) / 5 + 1;
            let m = if mp < 10 {
                mp + 3
            } else {
                mp - 9
            };
            let y = 400 * era + yoe;
            let year = if m <= 2 {
                y + 1
            } else {
                y
            };
            names_day(146_097 * era + doe - 719_468, year, m, d)
        }),
{
    lemma_year_of_cycle(doe);
    let yoe = (doe - doe / 1460 + doe / 36524 - doe / 146_096) / 365;
    let doy = doe - days_before_yoe(yoe);
    lemma_month_of_year(doy);
    lemma_cycle(era, yoe);
    let y = 400 * era + yoe;
    lemma_days_before(y);
    lemma_days_before(y + 1);
    law_years_follow_each_other(y);
    let mp = (5 * doy + 2) / 153;
    let d = doy - (153 * mp + 2) / 5 + 1;
    assert(days_before_year(y) == 146_097 * era + days_before_yoe(yoe) - if is_leap(y) {
        366int
    } else {
        365
    });
    if mp < 10 {
        assert(days_before_month(y, mp + 3) == 59 + (153 * mp + 2) / 5 + if is_leap(y) {
            1int
        } else {
            0
        });
    } else {
        assert(days_before_month(y + 1, mp - 9) == (153 * mp + 2) / 5 - 306);
    }
}

/// The date of a day, counted from the first of January 1970. The year is cut to
/// 32 bits.
pub fn days_to_ymd(days: i64) -> (r: (i32, u32, u32))
    requires
        days + 719_468 <= i64::MAX,
    ensures
        exists|year: i64| #[trigger]
            names_day(days as int, year as int, r.1 as int, r.2 as int) && r.0 == year as i32,
{
    let z: i64 = days + 719_468;
    let (era, doe): (i64, i64) = match (
        z.checked_div_euclid(146_097),
        z.checked_rem_euclid(146_097),
    ) {
        (Some(q), Some(r)) => (q, r),
        _ => (0, 0),
    };
    proof {
        assert(z == 146_097 * era + doe);
        lemma_year_of_cycle(doe as int);
        lemma_date_of_cycle(era as int, doe as int);
    }
    let yoe: i64 = (doe - doe / 1460 + doe / 36524 - doe / 146_096) / 365;
    let y: i64 = yoe + era * 400;
    let doy: i64 = doe - (365 * yoe + yoe / 4 - yoe / 100);
    proof {
        lemma_month_of_year(doy as int);
    }
    let mp: i64 = (5 * doy + 2) / 153;
    let d: i64 = doy - (153 * mp + 2) / 5 + 1;
    let m: i64 = if mp < 10 {
        mp + 3
    } else {
        mp - 9
    };
    let year: i64 = if m <= 2 {
        y + 1
    } else {
        y
    };
    let r: (i32, u32, u32) = (year as i32, m as u32, d as u32);
    assert(names_day(days as int, year as int, r.1 as int, r.2 as int));
    r
}

/// A moment in the form `1970-01-01 00:00:00`: the time of day, after the date
/// with the given parts.
pub open spec fn moment_text(year: i32, month: int, day: int, secs: int) -> Seq<char> {
    zero_padded(year as int, 4) + "-"@ + zero_padded(month, 2) + "-"@ + zero_padded(day, 2) + " "@
        + zero_padded(secs / 3600 % 24, 2) + ":"@ + zero_padded(secs / 60 % 60, 2) + ":"@
        + zero_padded(secs % 60, 2)
}

/// Whether `r` shows the moment of the given day that is `secs` seconds after the
/// first of January 1970.
pub open spec fn shows_moment(days: int, secs: int, r: Seq<char>) -> bool {
    exists|year: i64, month: int, day: int| #[trigger]
        names_day(days, year as int, month, day) && r == moment_text(
            year as i32,
            month,
            day,
            secs,
        )
}

/// The seconds of a moment; those before 1970 count as its start.
pub open spec fn since_epoch(ts: int) -> int {
    if ts > 0 {
        ts
    } else {
        0
    }
}

/// Whether `r` shows the moment `ts`, in seconds since the first of January 1970.
pub open spec fn shows_ts(ts: int, r: Seq<char>) -> bool {
    shows_moment(since_epoch(ts) / 86_400, since_epoch(ts), r)
}

/// A moment, in seconds since the first of January 1970, as people read it.
pub fn format_ts(ts: i64) -> (r: String)
    ensures
        shows_ts(ts as int, r@),
{
    let secs: i64 = if ts > 0 {
        ts
    } else {
        0
    };
    let days: i64 = secs / 86_400;
    let (y, mo, d) = days_to_ymd(days);
    let mut r = String::new();
    push_zero_padded(&mut r, y as i64, 4);
    r.append("-");
    push_zero_padded(&mut r, mo as i64, 2);
    r.append("-");
    push_zero_padded(&mut r, d as i64, 2);
    r.append(" ");
    push_zero_padded(&mut r, secs / 3600 % 24, 2);
    r.append(":");
    push_zero_padded(&mut r, secs / 60 % 60, 2);
    r.append(":");
    push_zero_padded(&mut r, secs % 60, 2);
    proof {
        let year = choose|year: i64| #[trigger]
            names_day(days as int, year as int, mo as int, d as int) && y == year as i32;
        assert(days == secs as int / 86_400);
        assert(r@ =~= moment_text(year as i32, mo as int, d as int, secs as int));
        assert(shows_moment(days as int, secs as int, r@));
    }
    r
}

/// The first day is the first of January 1970, and every day is followed by the next of
/// its month, the first of the next month or the first of the next year, with the months
/// and leap years of the Gregorian calendar.
pub proof fn law_days_follow_each_other(days: int, year: int, month: int, day: int)
    requires
        names_day(days, year, month, day),
    ensures
        names_day(0, 1970, 1, 1),
        1 <= month <= 12 && day >= 1,
        ({
            let leap = year % 4 == 0 && (year % 100 != 0 || year % 400 == 0);
            let last: int = if month == 2 {
                if leap {
                    29
                } else {
                    28
                }
            } else if month == 4 || month == 6 || month == 9 || month == 11 {
                30
            } else {
                31
            };
            &&& day <= last
            &&& if day < last {
                names_day(days + 1, year, month, day + 1)
            } else if month < 12 {
                names_day(days + 1, year, month + 1, 1)
            } else {
                names_day(days + 1, year + 1, 1, 1)
            }
        }),
{
    law_years_follow_each_other(year);
    law_years_follow_each_other(1970);
    reveal_with_fuel(days_before_month, 2);
    assert(days_before_month(1970, 1) == 0);
    assert(days_before_month(year + 1, 1) == 0);
    if month < 12 {
        assert(days_before_month(year, month + 1) == days_before_month(year, month) + month_len(
            year,
            month,
        ));
    }
}

/// Whether `r` has the date of the day and the time of day of a moment, in seconds, at
/// their places.
pub open spec fn date_and_time(days: int, t: int, r: Seq<char>) -> bool {
    exists|year: i64, month: int, day: int| #[trigger]
        names_day(days, year as int, month, day) && r == zero_padded(year as i32 as int, 4) + "-"@
            + zero_padded(month, 2) + "-"@ + zero_padded(day, 2) + " "@ + zero_padded(
            t % 86_400 / 3600,
            2,
        ) + ":"@ + zero_padded(t % 3600 / 60, 2) + ":"@ + zero_padded(t % 60, 2)
}

/// A moment is shown as its date and its time of day: hours, minutes and seconds since
/// midnight. One before 1970 is shown as the start of 1970.
pub proof fn law_shown_moment(ts: int, r: Seq<char>)
    requires
        shows_ts(ts, r),
    ensures
        ({
            let t: int = if ts > 0 {
                ts
            } else {
                0
            };
            date_and_time(t / 86_400, t, r)
        }),
{
    let t: int = if ts > 0 {
        ts
    } else {
        0
    };
    assert(t / 3600 % 24 == t % 86_400 / 3600) by {
        assert(t % 86_400 == t - 86_400 * (t / 86_400));
        assert(t / 86_400 == t / 3600 / 24);
    }
    assert(t / 60 % 60 == t % 3600 / 60) by {
        assert(t % 3600 == t - 3600 * (t / 3600));
        assert(t / 3600 == t / 60 / 60);
    }
    let days = t / 86_400;
    let (year, month, day) = choose|year: i64, month: int, day: int| #[trigger]
        names_day(days, year as int, month, day) && r == moment_text(year as i32, month, day, t);
    assert(names_day(days, year as int, month, day));
    assert(date_and_time(days, t, r));
}

} // verus!
