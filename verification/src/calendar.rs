//! Calendar dates of Unix time (proleptic Gregorian calendar, UTC), for
//! the time stamps of backup files.

use vstd::prelude::*;
use crate::text::{decimal, decimal_spec, digit_char};

verus! {

/// Whether `y` is a leap year.
pub open spec fn is_leap(y: int) -> bool {
    y % 4 == 0 && (y % 100 != 0 || y % 400 == 0)
}

/// The number of days of the year `y`.
pub open spec fn year_len(y: int) -> int {
    if is_leap(y) {
        366
    } else {
        365
    }
}

/// The number of days of the month `m` (1 to 12) of the year `y`.
pub open spec fn month_len(y: int, m: int) -> int {
    if m == 2 {
        if is_leap(y) {
            29
        } else {
            28
        }
    } else if m == 4 || m == 6 || m == 9 || m == 11 {
        30
    } else {
        31
    }
}

/// The days from the first day of year 0 to the first day of year `y`.
pub open spec fn days_before_year(y: int) -> int {
    365 * y + (y + 3) / 4 - (y + 99) / 100 + (y + 399) / 400
}

/// The days from the first day of the year `y` to the first day of its
/// month `m`.
pub open spec fn days_before_month(y: int, m: int) -> int
    decreases m,
{
    if m <= 1 {
        0
    } else {
        days_before_month(y, m - 1) + month_len(y, m - 1)
    }
}

/// `(y, m, d)` is a date of the calendar.
pub open spec fn is_date(y: int, m: int, d: int) -> bool {
    0 <= y && 1 <= m <= 12 && 1 <= d <= month_len(y, m)
}

/// The days from the first day of year 0 to the date `(y, m, d)`.
pub open spec fn day_number(y: int, m: int, d: int) -> int {
    days_before_year(y) + days_before_month(y, m) + d - 1
}

/// The day number of 1970-01-01, the first day of Unix time.
pub open spec fn unix_epoch_day() -> int {
    days_before_year(1970)
}

/// Each year is as long as the step it adds to `days_before_year`.
pub proof fn lemma_year_step(y: int)
    requires
        0 <= y,
    ensures
        days_before_year(y + 1) == days_before_year(y) + year_len(y),
{
}

/// The months of a year add up to the year.
pub proof fn lemma_months_fill_year(y: int)
    ensures
        days_before_month(y, 13) == year_len(y),
{
    reveal_with_fuel(days_before_month, 13);
}

/// Four hundred years hold 146097 days.
pub proof fn lemma_cycles(c: int)
    requires
        0 <= c,
    ensures
        days_before_year(400 * c) == 146097 * c,
{
}

/// The number of days of the year `y`.
fn year_length(y: u64) -> (n: u64)
    ensures
        n == year_len(y as int),
{
    if y % 4 == 0 && (y % 100 != 0 || y % 400 == 0) {
        366
    } else {
        365
    }
}

/// The number of days of the month `m` of the year `y`.
fn month_length(y: u64, m: u64) -> (n: u64)
    ensures
        n == month_len(y as int, m as int),
{
    if m == 2 {
        if y % 4 == 0 && (y % 100 != 0 || y % 400 == 0) {
            29
        } else {
            28
        }
    } else if m == 4 || m == 6 || m == 9 || m == 11 {
        30
    } else {
        31
    }
}

/// The date of the day with the given number of days since 1970-01-01.
pub fn date_of_day(days: u64) -> (r: (u64, u64, u64))
    requires
        days <= u64::MAX - 719528,
    ensures
        is_date(r.0 as int, r.1 as int, r.2 as int),
        day_number(r.0 as int, r.1 as int, r.2 as int) == days + unix_epoch_day(),
{
    assert(unix_epoch_day() == 719528);
    let a: u64 = days + 719528;
    let cycles: u64 = a / 146097;
    let mut rem: u64 = a % 146097;
    let mut y: u64 = 400 * cycles;
    proof {
        lemma_cycles(cycles as int);
    }
    while rem >= year_length(y)
        invariant
            days_before_year(y as int) + rem == a,
            a == days + 719528,
            a <= u64::MAX,
            y <= a,
        decreases rem,
    {
        let len = year_length(y);
        proof {
            lemma_year_step(y as int);
        }
        rem = rem - len;
        y = y + 1;
    }
    let mut m: u64 = 1;
    proof {
        lemma_months_fill_year(y as int);
        lemma_year_step(y as int);
    }
    while rem >= month_length(y, m)
        invariant
            1 <= m <= 12,
            days_before_month(y as int, m as int) + rem < year_len(y as int),
            days_before_month(y as int, 13) == year_len(y as int),
            days_before_year(y as int) + days_before_month(y as int, m as int) + rem == a,
        decreases rem,
    {
        let len = month_length(y, m);
        if m == 12 {
            assert(days_before_month(y as int, 13) == days_before_month(y as int, 12) + month_len(
                y as int,
                12,
            ));
        }
        rem = rem - len;
        m = m + 1;
    }
    (y, m, rem + 1)
}

/// A number below 100 written with two digits.
pub open spec fn two_digits(n: nat) -> Seq<char> {
    seq![digit_char(n / 10), digit_char(n % 10)]
}

/// A number below 100 written with two digits.
fn two_digit_text(n: u64) -> (s: String)
    requires
        n < 100,
    ensures
        s@ == two_digits(n as nat),
{
    let mut s = decimal(n / 10);
    let ones = decimal(n % 10);
    s.append(ones.as_str());
    assert(s@ =~= two_digits(n as nat));
    s
}

/// The stamp `YYYYMMDDHHMMSS` of a date and a time of day.
pub open spec fn stamp_text(y: nat, mo: nat, d: nat, h: nat, mi: nat, s: nat) -> Seq<char> {
    decimal_spec(y) + two_digits(mo) + two_digits(d) + two_digits(h) + two_digits(mi) + two_digits(s)
}

/// The time stamp `YYYYMMDDHHMMSS` (UTC) of a Unix time in seconds.
pub fn backup_stamp(unix_secs: u64) -> (s: String)
    ensures
        exists|y: int, mo: int, d: int|
            {
                &&& is_date(y, mo, d)
                &&& day_number(y, mo, d) == unix_secs / 86400 + unix_epoch_day()
                &&& s@ == stamp_text(
                    y as nat,
                    mo as nat,
                    d as nat,
                    (unix_secs % 86400 / 3600) as nat,
                    (unix_secs % 86400 % 3600 / 60) as nat,
                    (unix_secs % 86400 % 60) as nat,
                )
            },
{
    let days = unix_secs / 86400;
    let secs = unix_secs % 86400;
    assert(days <= u64::MAX - 719528) by (nonlinear_arith)
        requires
            days == unix_secs / 86400,
    ;
    let (y, mo, d) = date_of_day(days);
    let mut s = decimal(y);
    s.append(two_digit_text(mo).as_str());
    s.append(two_digit_text(d).as_str());
    s.append(two_digit_text(secs / 3600).as_str());
    s.append(two_digit_text(secs % 3600 / 60).as_str());
    s.append(two_digit_text(secs % 60).as_str());
    assert(s@ == stamp_text(
        y as nat,
        mo as nat,
        d as nat,
        (secs / 3600) as nat,
        (secs % 3600 / 60) as nat,
        (secs % 60) as nat,
    ));
    s
}

} // verus!
