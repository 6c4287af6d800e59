//! Days and times of day in UTC, in the years 0 to 9999 of the Gregorian
//! calendar, and the instants that they are.

use crate::time::Timestamp;
use vstd::prelude::*;

verus! {

/// Whether a year of the Gregorian calendar has a 29th of February.
pub open spec fn is_leap_year(year: int) -> bool {
    year % 4 == 0 && (year % 100 != 0 || year % 400 == 0)
}

/// The days of a year.
pub open spec fn days_in_year(year: int) -> int {
    if is_leap_year(year) {
        366
    } else {
        365
    }
}

/// The days of a month.
pub open spec fn days_in_month(year: int, month: int) -> int {
    if month == 2 {
        if is_leap_year(year) {
            29
        } else {
            28
        }
    } else if month == 4 || month == 6 || month == 9 || month == 11 {
        30
    } else {
        31
    }
}

/// The days of a year that come before the first of a month.
pub open spec fn days_before_month(year: int, month: int) -> int
    decreases month,
{
    if month <= 1 {
        0
    } else {
        days_before_month(year, month - 1) + days_in_month(year, month - 1)
    }
}

/// The days from the first of January of the year 0 to the first of January
/// of a year.
pub open spec fn days_before_year(year: int) -> int
    decreases year,
{
    if year <= 0 {
        0
    } else {
        days_before_year(year - 1) + days_in_year(year - 1)
    }
}

/// The days from the first of January of the year 0 to a date.
pub open spec fn day_number(year: int, month: int, day: int) -> int {
    days_before_year(year) + days_before_month(year, month) + day - 1
}

/// The day number of the first of January 1970.
pub open spec fn epoch_day() -> int {
    719_528
}

/// Whether the numbers name a day and a time of day, the second 60 being
/// the leap second that may follow the second 59.
pub open spec fn is_civil(
    year: int,
    month: int,
    day: int,
    hour: int,
    minute: int,
    second: int,
    nanos: int,
) -> bool {
    &&& 0 <= year <= 9999
    &&& 1 <= month <= 12
    &&& 1 <= day <= days_in_month(year, month)
    &&& 0 <= hour < 24
    &&& 0 <= minute < 60
    &&& 0 <= second <= 60
    &&& 0 <= nanos < 1_000_000_000
}

/// The instant of a day and a time of day in UTC. A leap second counts as
/// the second 59 with its nanoseconds run past the full second.
pub open spec fn civil_instant(
    year: int,
    month: int,
    day: int,
    hour: int,
    minute: int,
    second: int,
    nanos: int,
) -> Timestamp {
    let start = (day_number(year, month, day) - epoch_day()) * 86_400 + hour * 3_600 + minute
        * 60;
    if second == 60 {
        Timestamp { secs: (start + 59) as i64, nanos: (nanos + 1_000_000_000) as u32 }
    } else {
        Timestamp { secs: (start + second) as i64, nanos: nanos as u32 }
    }
}

/// The days before each month of a year.
proof fn lemma_days_before_month(year: int)
    ensures
        days_before_month(year, 1) == 0,
        days_before_month(year, 2) == 31,
        days_before_month(year, 3) == days_in_year(year) - 306,
        days_before_month(year, 4) == days_in_year(year) - 275,
        days_before_month(year, 5) == days_in_year(year) - 245,
        days_before_month(year, 6) == days_in_year(year) - 214,
        days_before_month(year, 7) == days_in_year(year) - 184,
        days_before_month(year, 8) == days_in_year(year) - 153,
        days_before_month(year, 9) == days_in_year(year) - 122,
        days_before_month(year, 10) == days_in_year(year) - 92,
        days_before_month(year, 11) == days_in_year(year) - 61,
        days_before_month(year, 12) == days_in_year(year) - 31,
{
    reveal_with_fuel(days_before_month, 13);
}

/// The days before a year grow with the year, by at least 365 a year.
proof fn lemma_days_before_year_grows(earlier: int, later: int)
    requires
        0 <= earlier <= later,
    ensures
        days_before_year(earlier) + 365 * (later - earlier) <= days_before_year(later),
        later > earlier ==> days_before_year(earlier) + days_in_year(earlier) <= days_before_year(
            later,
        ),
        0 <= days_before_year(earlier),
        days_before_year(later) <= 366 * later,
    decreases later,
{
    if later > 0 {
        if earlier < later {
            lemma_days_before_year_grows(earlier, later - 1);
        } else {
            lemma_days_before_year_grows(earlier - 1, later - 1);
        }
    }
}

/// The days before a year, in closed form.
proof fn lemma_days_before_year_formula(year: int)
    requires
        0 <= year,
    ensures
        days_before_year(year) == 365 * year + (year + 3) / 4 - (year + 99) / 100 + (year + 399)
            / 400,
    decreases year,
{
    if year > 0 {
        lemma_days_before_year_formula(year - 1);
    }
}

/// The day number of a date lies within its year.
proof fn lemma_day_number_in_year(year: int, month: int, day: int)
    requires
        0 <= year,
        1 <= month <= 12,
        1 <= day <= days_in_month(year, month),
    ensures
        days_before_year(year) <= day_number(year, month, day) < days_before_year(year)
            + days_in_year(year),
        month < 12 ==> days_before_month(year, month) + day <= days_before_month(
            year,
            month + 1,
        ),
{
    lemma_days_before_month(year);
}

/// A later date has a greater day number.
proof fn lemma_day_number_grows(
    year: int,
    month: int,
    day: int,
    later_year: int,
    later_month: int,
    later_day: int,
)
    requires
        0 <= year,
        1 <= month <= 12,
        1 <= day <= days_in_month(year, month),
        0 <= later_year,
        1 <= later_month <= 12,
        1 <= later_day <= days_in_month(later_year, later_month),
        year < later_year || (year == later_year && (month < later_month || (month == later_month
            && day < later_day))),
    ensures
        day_number(year, month, day) < day_number(later_year, later_month, later_day),
{
    lemma_day_number_in_year(year, month, day);
    lemma_day_number_in_year(later_year, later_month, later_day);
    if year < later_year {
        lemma_days_before_year_grows(year, later_year);
    } else if month < later_month {
        lemma_days_before_month(year);
    }
}

/// The instant of a day and a time of day in the years 0 to 9999 fits the
/// numbers of a timestamp.
pub(crate) proof fn lemma_civil_in_range(
    year: int,
    month: int,
    day: int,
    hour: int,
    minute: int,
    second: int,
    nanos: int,
)
    requires
        is_civil(year, month, day, hour, minute, second, nanos),
    ensures
        0 <= day_number(year, month, day) <= 3_660_000,
        ({
            let at = civil_instant(year, month, day, hour, minute, second, nanos);
            let start = (day_number(year, month, day) - epoch_day()) * 86_400 + hour * 3_600
                + minute * 60;
            &&& at.secs == if second == 60 {
                start + 59
            } else {
                start + second
            }
            &&& at.nanos == if second == 60 {
                nanos + 1_000_000_000
            } else {
                nanos
            }
        }),
{
    lemma_day_number_in_year(year, month, day);
    lemma_days_before_year_grows(0, year);
    lemma_days_before_year_grows(year, year);
}

/// Days and times of day in their order are instants in their order.
pub(crate) proof fn lemma_civil_order(
    year: int,
    month: int,
    day: int,
    hour: int,
    minute: int,
    second: int,
    nanos: int,
    later_year: int,
    later_month: int,
    later_day: int,
    later_hour: int,
    later_minute: int,
    later_second: int,
    later_nanos: int,
)
    requires
        is_civil(year, month, day, hour, minute, second, nanos),
        is_civil(
            later_year,
            later_month,
            later_day,
            later_hour,
            later_minute,
            later_second,
            later_nanos,
        ),
        year < later_year || (year == later_year && (month < later_month || (month == later_month
            && (day < later_day || (day == later_day && (hour < later_hour || (hour == later_hour
            && (minute < later_minute || (minute == later_minute && (second < later_second || (
        second == later_second && nanos < later_nanos))))))))))),
    ensures
        civil_instant(year, month, day, hour, minute, second, nanos).is_before(
            civil_instant(
                later_year,
                later_month,
                later_day,
                later_hour,
                later_minute,
                later_second,
                later_nanos,
            ),
        ),
{
    lemma_civil_in_range(year, month, day, hour, minute, second, nanos);
    lemma_civil_in_range(
        later_year,
        later_month,
        later_day,
        later_hour,
        later_minute,
        later_second,
        later_nanos,
    );
    if year != later_year || month != later_month || day != later_day {
        lemma_day_number_grows(year, month, day, later_year, later_month, later_day);
    }
}

/// Whether a year has a 29th of February.
fn leap_year(year: u32) -> (leap: bool)
    ensures
        leap == is_leap_year(year as int),
{
    year % 4 == 0 && (year % 100 != 0 || year % 400 == 0)
}

/// The days of a month.
fn month_length(year: u32, month: u32) -> (days: u32)
    ensures
        days == days_in_month(year as int, month as int),
{
    if month == 2 {
        if leap_year(year) {
            29
        } else {
            28
        }
    } else if month == 4 || month == 6 || month == 9 || month == 11 {
        30
    } else {
        31
    }
}

/// The days from the first of January of the year 0 to a date.
fn day_count(year: u32, month: u32, day: u32) -> (days: u32)
    requires
        year <= 9999,
        1 <= month <= 12,
        1 <= day <= days_in_month(year as int, month as int),
    ensures
        days == day_number(year as int, month as int, day as int),
        days <= 3_660_000,
{
    proof {
        lemma_days_before_year_formula(year as int);
        lemma_days_before_month(year as int);
        lemma_civil_in_range(year as int, month as int, day as int, 0, 0, 0, 0);
    }
    let before_year: u32 = 365 * year + (year + 3) / 4 - (year + 99) / 100 + (year + 399) / 400;
    let leap: u32 = if leap_year(year) {
        1
    } else {
        0
    };
    let before_month: u32 = if month == 1 {
        0
    } else if month == 2 {
        31
    } else if month == 3 {
        59 + leap
    } else if month == 4 {
        90 + leap
    } else if month == 5 {
        120 + leap
    } else if month == 6 {
        151 + leap
    } else if month == 7 {
        181 + leap
    } else if month == 8 {
        212 + leap
    } else if month == 9 {
        243 + leap
    } else if month == 10 {
        273 + leap
    } else if month == 11 {
        304 + leap
    } else {
        334 + leap
    };
    before_year + before_month + day - 1
}

/// The instant of a day and a time of day, where the numbers name one.
pub fn civil_timestamp(
    year: u32,
    month: u32,
    day: u32,
    hour: u32,
    minute: u32,
    second: u32,
    nanos: u32,
) -> (at: Option<Timestamp>)
    ensures
        at == if is_civil(
            year as int,
            month as int,
            day as int,
            hour as int,
            minute as int,
            second as int,
            nanos as int,
        ) {
            Some(
                civil_instant(
                    year as int,
                    month as int,
                    day as int,
                    hour as int,
                    minute as int,
                    second as int,
                    nanos as int,
                ),
            )
        } else {
            None
        },
{
    if year > 9999 || month < 1 || month > 12 || day < 1 || day > month_length(year, month)
        || hour > 23 || minute > 59 || second > 60 || nanos > 999_999_999 {
        return None;
    }
    proof {
        lemma_civil_in_range(
            year as int,
            month as int,
            day as int,
            hour as int,
            minute as int,
            second as int,
            nanos as int,
        );
    }
    let days: i64 = day_count(year, month, day) as i64;
    let start: i64 = (days - 719_528) * 86_400 + (hour as i64) * 3_600 + (minute as i64) * 60;
    if second == 60 {
        Some(Timestamp { secs: start + 59, nanos: nanos + 1_000_000_000 })
    } else {
        Some(Timestamp { secs: start + second as i64, nanos })
    }
}

} // verus!
