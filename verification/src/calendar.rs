//! The proleptic Gregorian calendar: days since 1970-01-01 and back, and the
//! `YYYY-MM-DD HH:MM` rendering of file modification times.

use vstd::prelude::*;

use crate::text::{decimal, push_char, push_signed_zero_padded, push_zero_padded, signed_zero_pad, zero_pad};

verus! {

/// Gregorian leap years: every fourth year, except centuries not divisible by 400.
pub open spec fn is_leap_year(year: int) -> bool {
    year % 4 == 0 && (year % 100 != 0 || year % 400 == 0)
}

/// Number of days of `month` (1 to 12) in `year`.
pub open spec fn days_in_month(year: int, month: int) -> int {
    if month == 2 {
        if is_leap_year(year) {
            29
        } else {
            28
        }
    } else if month == 4 || month == 6 || month == 9 || month == 11 {
        30
    } else {
        31
    }
}

/// A real calendar date.
pub open spec fn is_valid_date(year: int, month: int, day: int) -> bool {
    1 <= month <= 12 && 1 <= day <= days_in_month(year, month)
}

/// Days in the months of `year` before `month`.
pub open spec fn days_before_month(year: int, month: int) -> int
    decreases month,
{
    if month <= 1 {
        0
    } else {
        days_before_month(year, month - 1) + days_in_month(year, month - 1)
    }
}

/// Days from 0001-01-01 to the first of January of `year`: 365 per year plus
/// one for each leap year in between (negative before year 1).
pub open spec fn days_before_year(year: int) -> int {
    365 * (year - 1) + (year - 1) / 4 - (year - 1) / 100 + (year - 1) / 400
}

/// Days from 1970-01-01 to the given date (negative before it).
pub open spec fn epoch_day(year: int, month: int, day: int) -> int {
    days_before_year(year) + days_before_month(year, month) + day - 1 - days_before_year(1970)
}

/// Each year adds its own length to `days_before_year`.
pub proof fn lemma_year_length(year: int)
    ensures
        days_before_year(year + 1) - days_before_year(year) == if is_leap_year(year) {
            366int
        } else {
            365int
        },
{
}

/// Day count of `doy` days into the March-based year `yoe` of the 400-year
/// era `era` (eras and years counted from 0000-03-01).
pub open spec fn march_day(era: int, yoe: int, doy: int) -> int {
    era * 146097 + 365 * yoe + yoe / 4 - yoe / 100 + doy - 719468
}

/// Days from the first of March to the first of month index `mp`
/// (0 is March, 11 is February).
pub open spec fn march_offset(mp: int) -> int {
    (153 * mp + 2) / 5
}

proof fn lemma_days_before_month_table(year: int, month: int)
    requires
        1 <= month <= 12,
    ensures
        days_before_month(year, month) == (if month > 2 {
            march_offset(month - 3) + 59 + (if is_leap_year(year) {
                1int
            } else {
                0int
            })
        } else {
            march_offset(month + 9) - 306
        }),
{
    reveal_with_fuel(days_before_month, 12);
}

/// The epoch day of a date, written through its March-based era position.
proof fn lemma_epoch_day_march(year: int, month: int, day: int)
    requires
        1 <= month <= 12,
    ensures
        ({
            let y = if month <= 2 {
                year - 1
            } else {
                year
            };
            let mp = if month > 2 {
                month - 3
            } else {
                month + 9
            };
            epoch_day(year, month, day) == march_day(
                y / 400,
                y % 400,
                march_offset(mp) + day - 1,
            )
        }),
{
    let y = if month <= 2 {
        year - 1
    } else {
        year
    };
    lemma_days_before_month_table(year, month);
    lemma_year_length(year);
    let era = y / 400;
    let yoe = y % 400;
    assert(y == 400 * era + yoe);
    assert(y / 4 == 100 * era + yoe / 4);
    assert(y / 100 == 4 * era + yoe / 100);
    assert(days_before_year(y + 1) == era * 146097 + 365 * yoe + yoe / 4 - yoe / 100);
}

/// Division rounding toward zero, as `/` on machine integers does.
pub open spec fn trunc_div(a: int, b: int) -> int {
    if a >= 0 {
        a / b
    } else {
        -((-a) / b)
    }
}

/// The day count of Howard Hinnant's algorithm for any month number: the
/// months are counted from March, so January and February (and every month
/// number below 3) belong to the year before. For months 1 to 12 it is
/// `epoch_day`.
pub open spec fn civil_day_count(year: int, month: int, day: int) -> int {
    let y = if month <= 2 {
        year - 1
    } else {
        year
    };
    let mp = if month > 2 {
        month - 3
    } else {
        month + 9
    };
    march_day(y / 400, y % 400, trunc_div(153 * mp + 2, 5) + day - 1)
}

/// Whether `v` is a value of `i64`.
pub open spec fn in_i64(v: int) -> bool {
    i64::MIN <= v <= i64::MAX
}

/// Whether every step of the day count stays within `i64`.
pub open spec fn day_count_in_range(year: int, month: int, day: int) -> bool {
    let y = if month <= 2 {
        year - 1
    } else {
        year
    };
    let mp = if month > 2 {
        month - 3
    } else {
        month + 9
    };
    let doy = trunc_div(153 * mp + 2, 5) + day - 1;
    let yoe = y % 400;
    let doe = yoe * 365 + yoe / 4 - yoe / 100 + doy;
    &&& in_i64(y)
    &&& in_i64(y - 399)
    &&& in_i64(153 * mp + 2)
    &&& in_i64(trunc_div(153 * mp + 2, 5) + day)
    &&& in_i64(doy)
    &&& in_i64(doe)
    &&& in_i64((y / 400) * 146097)
    &&& in_i64((y / 400) * 146097 + doe)
    &&& in_i64((y / 400) * 146097 + doe - 719468)
}

/// For a real month the day count is the date's day number.
pub proof fn lemma_civil_day_count(year: int, month: int, day: int)
    requires
        1 <= month <= 12,
    ensures
        civil_day_count(year, month, day) == epoch_day(year, month, day),
{
    lemma_epoch_day_march(year, month, day);
}

/// A real date whose day number `civil_from_days` accepts passes every
/// step of the day count within `i64`.
pub proof fn lemma_valid_date_in_range(year: int, month: int, day: int)
    requires
        is_valid_date(year, month, day),
        i64::MIN <= epoch_day(year, month, day) <= i64::MAX - 719_468,
    ensures
        day_count_in_range(year, month, day),
        civil_day_count(year, month, day) == epoch_day(year, month, day),
{
    lemma_civil_day_count(year, month, day);
    let y = if month <= 2 {
        year - 1
    } else {
        year
    };
    let mp = if month > 2 {
        month - 3
    } else {
        month + 9
    };
    assert(0 <= mp <= 11);
    let doy = trunc_div(153 * mp + 2, 5) + day - 1;
    assert(0 <= doy <= 400);
    let yoe = y % 400;
    let doe = yoe * 365 + yoe / 4 - yoe / 100 + doy;
    assert(0 <= doe <= 150_000);
    let era = y / 400;
    assert(era * 146097 + doe - 719468 == epoch_day(year, month, day));
    assert(y == era * 400 + yoe);
}

/// The day after a date in the calendar.
pub open spec fn next_date(year: int, month: int, day: int) -> (int, int, int) {
    if day < days_in_month(year, month) {
        (year, month, day + 1)
    } else if month < 12 {
        (year, month + 1, 1)
    } else {
        (year + 1, 1, 1)
    }
}

/// 1970-01-01 is day 0, and the next calendar day is always one day later.
pub proof fn lemma_next_date(year: int, month: int, day: int)
    requires
        is_valid_date(year, month, day),
    ensures
        epoch_day(1970, 1, 1) == 0,
        ({
            let (y2, m2, d2) = next_date(year, month, day);
            is_valid_date(y2, m2, d2) && epoch_day(y2, m2, d2) == epoch_day(year, month, day) + 1
        }),
{
    reveal_with_fuel(days_before_month, 13);
    lemma_year_length(year);
}

/// Days since 1970-01-01 of a calendar date (Howard Hinnant's algorithm).
pub fn days_from_civil(year: i64, month: i64, day: i64) -> (days: i64)
    requires
        day_count_in_range(year as int, month as int, day as int),
    ensures
        days == civil_day_count(year as int, month as int, day as int),
        1 <= month <= 12 ==> days == epoch_day(year as int, month as int, day as int),
{
    let year = year - if month <= 2 {
        1
    } else {
        0
    };
    let era = if year >= 0 {
        year
    } else {
        year - 399
    } / 400;
    assert(era == year / 400);
    let year_of_era = year - era * 400;
    let mp = month + if month > 2 {
        -3
    } else {
        9
    };
    let numerator = 153 * mp + 2;
    let day_of_year = numerator / 5 + day - 1;
    assert(day_of_year == trunc_div(153 * mp + 2, 5) + day - 1);
    let day_of_era = year_of_era * 365 + year_of_era / 4 - year_of_era / 100 + day_of_year;
    proof {
        if 1 <= month <= 12 {
            lemma_civil_day_count(
                if month <= 2 {
                    year + 1
                } else {
                    year as int
                },
                month as int,
                day as int,
            );
        }
    }
    era * 146_097 + day_of_era - 719_468
}


/// Position of day `doe` (0 to 146096) of a 400-year era: its March-based
/// year and the day within that year.
proof fn lemma_year_of_era(doe: int)
    requires
        0 <= doe <= 146096,
    ensures
        ({
            let yoe = (doe - doe / 1460 + doe / 36524 - doe / 146096) / 365;
            let start = 365 * yoe + yoe / 4 - yoe / 100;
            let n = yoe + 1;
            &&& 0 <= yoe <= 399
            &&& start <= doe
            &&& doe - start < 365 + (if n % 4 == 0 && (n % 100 != 0 || n % 400 == 0) {
                1int
            } else {
                0int
            })
        }),
{
}

/// Month and day of the `doy`-th day (from 0) of a March-based year.
proof fn lemma_month_of_march_day(doy: int, leap: bool)
    requires
        0 <= doy < 365 + (if leap {
            1int
        } else {
            0int
        }),
    ensures
        ({
            let mp = (5 * doy + 2) / 153;
            let day = doy - march_offset(mp) + 1;
            let month = if mp < 10 {
                mp + 3
            } else {
                mp - 9
            };
            &&& 0 <= mp <= 11
            &&& 1 <= month <= 12
            &&& 1 <= day
            &&& day <= (if month == 2 {
                if leap {
                    29int
                } else {
                    28int
                }
            } else if month == 4 || month == 6 || month == 9 || month == 11 {
                30int
            } else {
                31int
            })
        }),
{
}

/// The steps of `civil_from_days`, as integers, give the date it claims.
#[verifier::spinoff_prover]
#[verifier::rlimit(40)]
proof fn lemma_civil_steps(days: int, era: int, doe: int, yoe: int, doy: int, mp: int)
    requires
        era == (days + 719468) / 146097,
        doe == days + 719468 - era * 146097,
        yoe == (doe - doe / 1460 + doe / 36524 - doe / 146096) / 365,
        doy == doe - (365 * yoe + yoe / 4 - yoe / 100),
        mp == (5 * doy + 2) / 153,
    ensures
        ({
            let day = doy - march_offset(mp) + 1;
            let month = if mp < 10 {
                mp + 3
            } else {
                mp - 9
            };
            let year = yoe + era * 400;
            let civil_year = if month <= 2 {
                year + 1
            } else {
                year
            };
            &&& 0 <= yoe <= 399
            &&& 0 <= doy <= 365
            &&& 0 <= mp <= 11
            &&& is_valid_date(civil_year, month, day)
            &&& epoch_day(civil_year, month, day) == days
        }),
{
    lemma_year_of_era(doe);
    lemma_month_of_march_day(doy, is_leap_year(yoe + 1));
    let day = doy - march_offset(mp) + 1;
    let month = if mp < 10 {
        mp + 3
    } else {
        mp - 9
    };
    let year = yoe + era * 400;
    let civil_year = if month <= 2 {
        year + 1
    } else {
        year
    };
    if month <= 2 {
        assert(is_leap_year(civil_year) == is_leap_year(yoe + 1));
    }
    lemma_epoch_day_march(civil_year, month, day);
    assert(year / 400 == era);
    assert(year % 400 == yoe);
}

/// The calendar date `days` days after 1970-01-01 (Howard Hinnant's algorithm).
#[verifier::spinoff_prover]
#[verifier::rlimit(40)]
pub fn civil_from_days(days: i64) -> (date: (i64, u32, u32))
    requires
        days <= i64::MAX - 719_468,
    ensures
        is_valid_date(date.0 as int, date.1 as int, date.2 as int),
        epoch_day(date.0 as int, date.1 as int, date.2 as int) == days,
        day_count_in_range(date.0 as int, date.1 as int, date.2 as int),
{
    let ghost input = days as int;
    let days = days + 719_468;
    let era = if days >= 0 {
        days
    } else {
        days - 146_096
    } / 146_097;
    assert(era == days / 146097);
    let day_of_era = days - era * 146_097;
    let year_of_era = (day_of_era - day_of_era / 1_460 + day_of_era / 36_524 - day_of_era
        / 146_096) / 365;
    let year = year_of_era + era * 400;
    let day_of_year = day_of_era - (365 * year_of_era + year_of_era / 4 - year_of_era / 100);
    let mp = (5 * day_of_year + 2) / 153;
    proof {
        lemma_civil_steps(
            input,
            era as int,
            day_of_era as int,
            year_of_era as int,
            day_of_year as int,
            mp as int,
        );
    }
    let day = day_of_year - (153 * mp + 2) / 5 + 1;
    let month = if mp < 10 {
        mp + 3
    } else {
        mp - 9
    };
    let civil_year = if month <= 2 {
        year + 1
    } else {
        year
    };
    proof {
        lemma_valid_date_in_range(civil_year as int, month as int, day as int);
    }
    (civil_year, month as u32, day as u32)
}


proof fn lemma_days_before_year_monotonic(a: int, b: int)
    requires
        a < b,
    ensures
        days_before_year(a) + 365 <= days_before_year(b),
{
}

/// The day of the year of a valid date lies inside its year.
proof fn lemma_day_within_year(year: int, month: int, day: int)
    requires
        is_valid_date(year, month, day),
    ensures
        days_before_year(year) <= days_before_year(year) + days_before_month(year, month) + day
            - 1 < days_before_year(year + 1),
{
    reveal_with_fuel(days_before_month, 13);
    lemma_year_length(year);
}

/// Distinct calendar dates have distinct day numbers, so `civil_from_days`
/// and `days_from_civil` undo each other in both directions.
pub proof fn lemma_epoch_day_injective(
    year1: int,
    month1: int,
    day1: int,
    year2: int,
    month2: int,
    day2: int,
)
    requires
        is_valid_date(year1, month1, day1),
        is_valid_date(year2, month2, day2),
        epoch_day(year1, month1, day1) == epoch_day(year2, month2, day2),
    ensures
        year1 == year2,
        month1 == month2,
        day1 == day2,
{
    lemma_day_within_year(year1, month1, day1);
    lemma_day_within_year(year2, month2, day2);
    if year1 < year2 {
        lemma_days_before_year_monotonic(year1 + 1, year2 + 1);
        lemma_days_before_year_monotonic(year1, year2);
        if year1 + 1 < year2 {
            lemma_days_before_year_monotonic(year1 + 1, year2);
        }
    } else if year2 < year1 {
        lemma_days_before_year_monotonic(year2, year1);
        if year2 + 1 < year1 {
            lemma_days_before_year_monotonic(year2 + 1, year1);
        }
    }
    assert(year1 == year2);
    reveal_with_fuel(days_before_month, 13);
}


/// Day numbers and dates convert back and forth. For a date whose day
/// number `civil_from_days` accepts, `days_from_civil` may be applied to it
/// and gives that day number (`civil_day_count` is `epoch_day` here), and no
/// other date has that day number, so `civil_from_days` of the day number is
/// the date again. Together with the contracts of the two functions:
/// `days_from_civil(civil_from_days(d)) == d` for every accepted `d`, and
/// `civil_from_days(days_from_civil(y, m, d)) == (y, m, d)` for every such
/// date.
pub proof fn lemma_calendar_round_trip(year: int, month: int, day: int)
    requires
        is_valid_date(year, month, day),
        i64::MIN <= epoch_day(year, month, day) <= i64::MAX - 719_468,
    ensures
        day_count_in_range(year, month, day),
        civil_day_count(year, month, day) == epoch_day(year, month, day),
        forall|y2: int, m2: int, d2: int|
            is_valid_date(y2, m2, d2) && #[trigger] epoch_day(y2, m2, d2) == epoch_day(year, month, day)
                ==> y2 == year && m2 == month && d2 == day,
{
    lemma_valid_date_in_range(year, month, day);
    assert forall|y2: int, m2: int, d2: int|
        is_valid_date(y2, m2, d2) && #[trigger] epoch_day(y2, m2, d2) == epoch_day(year, month, day)
            implies y2 == year && m2 == month && d2 == day by {
        lemma_epoch_day_injective(y2, m2, d2, year, month, day);
    }
}

/// `YYYY-MM-DD HH:MM` for a date and a second of that day.
pub open spec fn date_time_text(year: int, month: int, day: int, second_of_day: int) -> Seq<
    char,
> {
    signed_zero_pad(year, 4) + seq!['-'] + zero_pad(decimal(month as nat), 2) + seq!['-']
        + zero_pad(decimal(day as nat), 2) + seq![' '] + zero_pad(
        decimal((second_of_day / 3600) as nat),
        2,
    ) + seq![':'] + zero_pad(decimal((second_of_day % 3600 / 60) as nat), 2)
}

/// A Unix timestamp as `YYYY-MM-DD HH:MM` (UTC).
pub fn format_modified_time(unix_seconds: i64) -> (text: String)
    ensures
        exists|year: int, month: int, day: int|
            {
                &&& is_valid_date(year, month, day)
                &&& epoch_day(year, month, day) == unix_seconds as int / 86400
                &&& text@ == date_time_text(year, month, day, unix_seconds as int % 86400)
            },
{
    let days = unix_seconds.checked_div_euclid(86_400).unwrap();
    let seconds_of_day = unix_seconds.checked_rem_euclid(86_400).unwrap();
    let (year, month, day) = civil_from_days(days);
    let mut text = String::new();
    push_signed_zero_padded(&mut text, year, 4);
    push_char(&mut text, '-');
    push_zero_padded(&mut text, month as u64, 2);
    push_char(&mut text, '-');
    push_zero_padded(&mut text, day as u64, 2);
    push_char(&mut text, ' ');
    push_zero_padded(&mut text, (seconds_of_day / 3_600) as u64, 2);
    push_char(&mut text, ':');
    push_zero_padded(&mut text, (seconds_of_day % 3_600 / 60) as u64, 2);
    assert(text@ == date_time_text(year as int, month as int, day as int, seconds_of_day as int));
    text
}

/// A wall-clock reading as the operating system reports it.
#[derive(Clone, Copy, Debug, PartialEq, Eq)]
pub struct SystemTime {
    pub year: u16,
    pub month: u16,
    pub day_of_week: u16,
    pub day: u16,
    pub hour: u16,
    pub minute: u16,
    pub second: u16,
    pub milliseconds: u16,
}

/// `v` held within the range of `i64`.
pub open spec fn clamp_i64(v: int) -> int {
    if v > i64::MAX {
        i64::MAX as int
    } else if v < i64::MIN {
        i64::MIN as int
    } else {
        v
    }
}

/// Seconds since the epoch of a reading whose date is `days` since the
/// epoch, each step saturating at the range of `i64`.
pub open spec fn clock_seconds(days: int, t: SystemTime) -> int {
    clamp_i64(clamp_i64(clamp_i64(clamp_i64(days * 86400) + t.hour * 3600) + t.minute * 60) + t.second)
}

fn saturating_add(a: i64, b: i64) -> (sum: i64)
    ensures
        sum == clamp_i64(a + b),
{
    match a.checked_add(b) {
        Some(v) => v,
        None => if b > 0 {
            i64::MAX
        } else {
            i64::MIN
        },
    }
}

fn saturating_sub(a: i64, b: i64) -> (difference: i64)
    ensures
        difference == clamp_i64(a - b),
{
    match a.checked_sub(b) {
        Some(v) => v,
        None => if b < 0 {
            i64::MAX
        } else {
            i64::MIN
        },
    }
}

/// Seconds since the epoch of a clock reading.
fn seconds_of(t: &SystemTime) -> (seconds: i64)
    ensures
        1 <= t.month <= 12 ==> seconds == clock_seconds(epoch_day(t.year as int, t.month as int, t.day as int), *t),
{
    let days = days_from_civil(t.year as i64, t.month as i64, t.day as i64);
    let scaled = match days.checked_mul(86_400) {
        Some(v) => v,
        None => if days < 0 {
            i64::MIN
        } else {
            i64::MAX
        },
    };
    assert(scaled == clamp_i64(days * 86400));
    let with_hours = saturating_add(scaled, t.hour as i64 * 3_600);
    let with_minutes = saturating_add(with_hours, t.minute as i64 * 60);
    saturating_add(with_minutes, t.second as i64)
}

/// Seconds between local time and UTC, from the two clock readings the
/// operating system gives for the same instant.
pub fn local_utc_offset_seconds(system: &SystemTime, local: &SystemTime) -> (offset: i64)
    ensures
        1 <= system.month <= 12 && 1 <= local.month <= 12 ==> offset == clamp_i64(
            clock_seconds(epoch_day(local.year as int, local.month as int, local.day as int), *local)
                - clock_seconds(epoch_day(system.year as int, system.month as int, system.day as int), *system),
        ),
{
    saturating_sub(seconds_of(local), seconds_of(system))
}

/// A Unix timestamp shifted by `offset_seconds` (local time), as
/// `YYYY-MM-DD HH:MM`.
pub fn format_local_modified_time(unix_seconds: i64, offset_seconds: i64) -> (text: String)
    requires
        i64::MIN <= unix_seconds + offset_seconds <= i64::MAX,
    ensures
        exists|year: int, month: int, day: int|
            {
                &&& is_valid_date(year, month, day)
                &&& epoch_day(year, month, day) == (unix_seconds + offset_seconds) / 86400
                &&& text@ == date_time_text(year, month, day, (unix_seconds + offset_seconds) % 86400)
            },
{
    format_modified_time(unix_seconds + offset_seconds)
}

} // verus!
