//! The proleptic Gregorian calendar for the years 0000 to 9999, and the
//! count of days that relates its dates to the epoch.

use vstd::prelude::*;

verus! {

/// The day count of 0000-01-01, relative to 1970-01-01.
pub const MIN_DAYS: i64 = -719_528;

/// The day count of 9999-12-31, relative to 1970-01-01.
pub const MAX_DAYS: i64 = 2_932_896;

/// Whether `year` has a 29th of February.
pub open spec fn spec_is_leap_year(year: int) -> bool {
    year % 4 == 0 && (year % 100 != 0 || year % 400 == 0)
}

/// The number of days in `year`.
pub open spec fn days_in_year(year: int) -> int {
    if spec_is_leap_year(year) {
        366
    } else {
        365
    }
}

/// The number of days in month `month` (1 to 12) of `year`.
pub open spec fn spec_days_in_month(year: int, month: int) -> int {
    if month == 2 {
        if spec_is_leap_year(year) {
            29
        } else {
            28
        }
    } else if month == 4 || month == 6 || month == 9 || month == 11 {
        30
    } else {
        31
    }
}

/// The number of days in the years 0 up to, but not including, `year`.
pub open spec fn spec_days_before_year(year: int) -> int
    decreases year,
{
    if year <= 0 {
        0
    } else {
        spec_days_before_year(year - 1) + days_in_year(year - 1)
    }
}

/// The number of days in the months of `year` before `month`.
pub open spec fn spec_days_before_month(year: int, month: int) -> int
    decreases month,
{
    if month <= 1 {
        0
    } else {
        spec_days_before_month(year, month - 1) + spec_days_in_month(year, month - 1)
    }
}

/// Whether `year`-`month`-`day` is a date of the calendar.
pub open spec fn is_valid_date(year: int, month: int, day: int) -> bool {
    &&& 0 <= year <= 9999
    &&& 1 <= month <= 12
    &&& 1 <= day <= spec_days_in_month(year, month)
}

/// The number of days from 1970-01-01 to `year`-`month`-`day`; negative for
/// earlier dates.
pub open spec fn spec_days_from_civil(year: int, month: int, day: int) -> int {
    spec_days_before_year(year) + spec_days_before_month(year, month) + (day - 1)
        - spec_days_before_year(1970)
}

/// The date that lies `days` days after 1970-01-01, as year, month and day.
pub open spec fn spec_civil_from_days(days: int) -> (int, int, int) {
    choose|date: (int, int, int)|
        is_valid_date(date.0, date.1, date.2) && spec_days_from_civil(date.0, date.1, date.2)
            == days
}

/// The days before a year in closed form: 365 for each year, and one more
/// for each leap year among them.
pub proof fn lemma_days_before_year(year: int)
    requires
        0 <= year,
    ensures
        spec_days_before_year(year) == 365 * year + (year + 3) / 4 - (year + 99) / 100 + (year
            + 399) / 400,
    decreases year,
{
    if year > 0 {
        lemma_days_before_year(year - 1);
    }
}

/// The epoch lies 719528 days after the start of year 0.
pub proof fn lemma_epoch_days()
    ensures
        spec_days_before_year(1970) == 719_528,
        spec_days_before_year(10000) == 3_652_425,
{
    lemma_days_before_year(1970);
    lemma_days_before_year(10000);
}

/// Later years start at least 365 days later for each year between.
pub proof fn lemma_days_before_year_grows(earlier: int, later: int)
    requires
        0 <= earlier <= later,
    ensures
        spec_days_before_year(later) - spec_days_before_year(earlier) >= 365 * (later - earlier),
    decreases later - earlier,
{
    if earlier < later {
        lemma_days_before_year_grows(earlier, later - 1);
    }
}

/// The days before each month of a year, month by month.
pub proof fn lemma_days_before_month(year: int)
    ensures
        spec_days_before_month(year, 1) == 0,
        spec_days_before_month(year, 2) == 31,
        spec_days_before_month(year, 3) == 31 + spec_days_in_month(year, 2),
        spec_days_before_month(year, 4) == 62 + spec_days_in_month(year, 2),
        spec_days_before_month(year, 5) == 92 + spec_days_in_month(year, 2),
        spec_days_before_month(year, 6) == 123 + spec_days_in_month(year, 2),
        spec_days_before_month(year, 7) == 153 + spec_days_in_month(year, 2),
        spec_days_before_month(year, 8) == 184 + spec_days_in_month(year, 2),
        spec_days_before_month(year, 9) == 215 + spec_days_in_month(year, 2),
        spec_days_before_month(year, 10) == 245 + spec_days_in_month(year, 2),
        spec_days_before_month(year, 11) == 276 + spec_days_in_month(year, 2),
        spec_days_before_month(year, 12) == 306 + spec_days_in_month(year, 2),
        spec_days_before_month(year, 13) == days_in_year(year),
{
    reveal_with_fuel(spec_days_before_month, 14);
}

/// Whether the first date comes before the second.
pub open spec fn date_before(a: (int, int, int), b: (int, int, int)) -> bool {
    a.0 < b.0 || (a.0 == b.0 && (a.1 < b.1 || (a.1 == b.1 && a.2 < b.2)))
}

/// An earlier date has a smaller day count.
pub proof fn lemma_days_from_civil_increases(a: (int, int, int), b: (int, int, int))
    requires
        is_valid_date(a.0, a.1, a.2),
        is_valid_date(b.0, b.1, b.2),
        date_before(a, b),
    ensures
        spec_days_from_civil(a.0, a.1, a.2) < spec_days_from_civil(b.0, b.1, b.2),
{
    lemma_days_before_month(a.0);
    lemma_days_before_month(b.0);
    if a.0 < b.0 {
        lemma_days_before_year_grows(a.0 + 1, b.0);
        assert(spec_days_before_year(a.0 + 1) == spec_days_before_year(a.0) + days_in_year(a.0));
    }
}

/// Two dates with the same day count are the same date.
pub proof fn lemma_days_from_civil_injective(a: (int, int, int), b: (int, int, int))
    requires
        is_valid_date(a.0, a.1, a.2),
        is_valid_date(b.0, b.1, b.2),
        spec_days_from_civil(a.0, a.1, a.2) == spec_days_from_civil(b.0, b.1, b.2),
    ensures
        a == b,
{
    if date_before(a, b) {
        lemma_days_from_civil_increases(a, b);
    }
    if date_before(b, a) {
        lemma_days_from_civil_increases(b, a);
    }
}

/// The day counts of the calendar's dates lie between those of its first
/// and last day.
pub proof fn lemma_days_from_civil_range(year: int, month: int, day: int)
    requires
        is_valid_date(year, month, day),
    ensures
        MIN_DAYS <= spec_days_from_civil(year, month, day) <= MAX_DAYS,
{
    lemma_epoch_days();
    lemma_days_before_month(year);
    lemma_days_before_year_grows(0, year);
    lemma_days_before_year_grows(year + 1, 10000);
    assert(spec_days_before_year(year + 1) == spec_days_before_year(year) + days_in_year(year));
}

/// Every day count of the range belongs to a date of the calendar.
pub proof fn lemma_civil_exists(days: int)
    requires
        MIN_DAYS <= days <= MAX_DAYS,
    ensures
        is_valid_date(
            spec_civil_from_days(days).0,
            spec_civil_from_days(days).1,
            spec_civil_from_days(days).2,
        ),
        spec_days_from_civil(
            spec_civil_from_days(days).0,
            spec_civil_from_days(days).1,
            spec_civil_from_days(days).2,
        ) == days,
    decreases days - MIN_DAYS,
{
    lemma_epoch_days();
    let witness: (int, int, int) = if days == MIN_DAYS {
        lemma_days_before_month(0);
        (0int, 1int, 1int)
    } else {
        lemma_civil_exists(days - 1);
        let (year, month, day) = spec_civil_from_days(days - 1);
        lemma_days_before_month(year);
        if day < spec_days_in_month(year, month) {
            (year, month, day + 1)
        } else if month < 12 {
            (year, month + 1, 1int)
        } else {
            assert(spec_days_before_year(year + 1) == spec_days_before_year(year) + days_in_year(
                year,
            ));
            if year == 9999 {
                assert(false);
            }
            lemma_days_before_month(year + 1);
            (year + 1, 1int, 1int)
        }
    };
    assert(is_valid_date(witness.0, witness.1, witness.2) && spec_days_from_civil(
        witness.0,
        witness.1,
        witness.2,
    ) == days);
}

/// The date of a day count is the one date of the calendar with that count.
pub proof fn lemma_civil_from_days_unique(days: int, year: int, month: int, day: int)
    requires
        is_valid_date(year, month, day),
        spec_days_from_civil(year, month, day) == days,
    ensures
        spec_civil_from_days(days) == (year, month, day),
{
    lemma_days_from_civil_range(year, month, day);
    lemma_civil_exists(days);
    lemma_days_from_civil_injective(spec_civil_from_days(days), (year, month, day));
}

/// Whether `year` has a 29th of February.
pub fn is_leap_year(year: u32) -> (r: bool)
    ensures
        r == spec_is_leap_year(year as int),
{
    year % 4 == 0 && (year % 100 != 0 || year % 400 == 0)
}

/// The number of days in month `month` of `year`.
pub fn days_in_month(year: u32, month: u32) -> (r: u32)
    ensures
        r == spec_days_in_month(year as int, month as int),
{
    if month == 2 {
        if is_leap_year(year) {
            29
        } else {
            28
        }
    } else if month == 4 || month == 6 || month == 9 || month == 11 {
        30
    } else {
        31
    }
}

/// The number of days in the years 0 up to, but not including, `year`.
pub fn days_before_year(year: u32) -> (r: u32)
    requires
        year <= 10000,
    ensures
        r == spec_days_before_year(year as int),
{
    proof {
        lemma_days_before_year(year as int);
    }
    365 * year + (year + 3) / 4 - (year + 99) / 100 + (year + 399) / 400
}

/// The number of days in the months of `year` before `month`; with 13 for
/// the month, the days of the whole year.
pub fn days_before_month(year: u32, month: u32) -> (r: u32)
    requires
        1 <= month <= 13,
    ensures
        r == spec_days_before_month(year as int, month as int),
        r <= 366,
{
    proof {
        lemma_days_before_month(year as int);
    }
    let february: u32 = days_in_month(year, 2);
    if month == 1 {
        0
    } else if month == 2 {
        31
    } else if month == 3 {
        31 + february
    } else if month == 4 {
        62 + february
    } else if month == 5 {
        92 + february
    } else if month == 6 {
        123 + february
    } else if month == 7 {
        153 + february
    } else if month == 8 {
        184 + february
    } else if month == 9 {
        215 + february
    } else if month == 10 {
        245 + february
    } else if month == 11 {
        276 + february
    } else if month == 12 {
        306 + february
    } else {
        337 + february
    }
}

/// The number of days from 1970-01-01 to `year`-`month`-`day`.
pub fn days_from_civil(year: u32, month: u32, day: u32) -> (r: i64)
    requires
        is_valid_date(year as int, month as int, day as int),
    ensures
        r == spec_days_from_civil(year as int, month as int, day as int),
        MIN_DAYS <= r <= MAX_DAYS,
{
    proof {
        lemma_epoch_days();
        lemma_days_from_civil_range(year as int, month as int, day as int);
    }
    let since_year_zero: u32 = days_before_year(year) + days_before_month(year, month) + (day - 1);
    since_year_zero as i64 - 719_528
}

/// The date that lies `days` days after 1970-01-01, as year, month and day.
pub fn civil_from_days(days: i64) -> (r: (u32, u32, u32))
    requires
        MIN_DAYS <= days <= MAX_DAYS,
    ensures
        (r.0 as int, r.1 as int, r.2 as int) == spec_civil_from_days(days as int),
        is_valid_date(r.0 as int, r.1 as int, r.2 as int),
        spec_days_from_civil(r.0 as int, r.1 as int, r.2 as int) == days,
{
    proof {
        lemma_epoch_days();
    }
    let since_year_zero: u32 = (days + 719_528) as u32;
    // Four hundred years hold 146097 days. The year before the one that
    // this average gives never starts after the day in question, and falls
    // short of its year by two at most.
    let average: u32 = ((since_year_zero as u64 * 400) / 146_097) as u32;
    let mut year: u32 = if average > 0 {
        average - 1
    } else {
        0
    };
    proof {
        lemma_days_before_year(year as int);
    }
    while days_before_year(year + 1) <= since_year_zero
        invariant
            year <= 9999,
            since_year_zero < 3_652_425,
            spec_days_before_year(10000) == 3_652_425,
            spec_days_before_year(year as int) <= since_year_zero,
        decreases 9999 - year,
    {
        proof {
            if year == 9999 {
                assert(false);
            }
        }
        year = year + 1;
    }
    let day_of_year: u32 = since_year_zero - days_before_year(year);
    proof {
        assert(spec_days_before_year(year + 1) == spec_days_before_year(year as int)
            + days_in_year(year as int));
        lemma_days_before_month(year as int);
    }
    let mut month: u32 = 1;
    while days_before_month(year, month + 1) <= day_of_year
        invariant
            1 <= month <= 12,
            day_of_year < days_in_year(year as int),
            spec_days_before_month(year as int, 13) == days_in_year(year as int),
            spec_days_before_month(year as int, month as int) <= day_of_year,
        decreases 12 - month,
    {
        proof {
            if month == 12 {
                assert(false);
            }
        }
        month = month + 1;
    }
    let day: u32 = day_of_year - days_before_month(year, month) + 1;
    proof {
        assert(spec_days_before_month(year as int, month + 1) == spec_days_before_month(
            year as int,
            month as int,
        ) + spec_days_in_month(year as int, month as int));
        lemma_civil_from_days_unique(days as int, year as int, month as int, day as int);
    }
    (year, month, day)
}

} // verus!
