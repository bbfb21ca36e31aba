//! Epoch seconds as a calendar date and time of day, in UTC, under the
//! proleptic Gregorian calendar.

use crate::numbers::{decimal, digit_char, push_decimal, push_digit};
use vstd::prelude::*;
use vstd::string::StringExecFns;

verus! {

/// Seconds in a day.
pub const DAY_SECONDS: u64 = 86400;

/// Days in 400 years, after which the calendar repeats.
pub const ERA_DAYS: u64 = 146097;

/// Whether a year has a 29th of February.
pub open spec fn is_leap(year: int) -> bool {
    year % 4 == 0 && (year % 100 != 0 || year % 400 == 0)
}

/// The number of days of a year.
pub open spec fn days_in_year(year: int) -> int {
    if is_leap(year) {
        366
    } else {
        365
    }
}

/// The number of days of a month, counted from 1 for January.
pub open spec fn days_in_month(year: int, month: int) -> int {
    if month == 2 {
        if is_leap(year) {
            29
        } else {
            28
        }
    } else if month == 4 || month == 6 || month == 9 || month == 11 {
        30
    } else {
        31
    }
}

/// The number of leap years from year 1 up to and including `year`.
pub open spec fn leap_years_through(year: int) -> int {
    year / 4 - year / 100 + year / 400
}

/// The number of days from the first day of 1970 to the first day of `year`;
/// negative for earlier years.
pub open spec fn days_before_year(year: int) -> int {
    365 * (year - 1970) + leap_years_through(year - 1) - leap_years_through(1969)
}

/// The number of days of a year that lie before the first of a month.
pub open spec fn days_before_month(year: int, month: int) -> int
    decreases month,
{
    if month <= 1 {
        0
    } else {
        days_before_month(year, month - 1) + days_in_month(year, month - 1)
    }
}

/// A date and a time of day.
#[derive(Clone, Copy, Debug, PartialEq, Eq, Structural)]
pub struct CivilTime {
    pub year: i64,
    /// 1 for January to 12 for December.
    pub month: u8,
    /// Day of the month, from 1.
    pub day: u8,
    pub hour: u8,
    pub minute: u8,
    pub second: u8,
}

impl CivilTime {
    /// The date exists in the calendar and the time of day on the clock.
    pub open spec fn valid(self) -> bool {
        &&& 1 <= self.month <= 12
        &&& 1 <= self.day <= days_in_month(self.year as int, self.month as int)
        &&& self.hour < 24
        &&& self.minute < 60
        &&& self.second < 60
    }

    /// The number of days from the first day of 1970 to this date.
    pub open spec fn day_number(self) -> int {
        days_before_year(self.year as int) + days_before_month(
            self.year as int,
            self.month as int,
        ) + self.day - 1
    }

    /// The number of seconds from the start of 1970 to this date and time.
    pub open spec fn epoch_seconds(self) -> int {
        self.day_number() * 86400 + self.hour * 3600 + self.minute * 60 + self.second
    }
}

/// A year ends where the next begins.
pub proof fn lemma_year_step(year: int)
    ensures
        days_before_year(year + 1) == days_before_year(year) + days_in_year(year),
{
}

/// Adding a multiple of the divisor adds to the quotient and leaves the
/// remainder.
proof fn lemma_shift(x: int, k: int, d: int)
    requires
        d > 0,
    ensures
        (x + d * k) / d == x / d + k,
        (x + d * k) % d == x % d,
{
    vstd::arithmetic::div_mod::lemma_fundamental_div_mod(x, d);
    vstd::arithmetic::div_mod::lemma_mod_bound(x, d);
    let q = x / d + k;
    let r = x % d;
    assert(x + d * k == q * d + r) by (nonlinear_arith)
        requires
            x == d * (x / d) + x % d,
            q == x / d + k,
            r == x % d,
    ;
    vstd::arithmetic::div_mod::lemma_fundamental_div_mod_converse(x + d * k, d, q, r);
}

/// After 400 years the calendar repeats: leap years fall alike, and 146097
/// days have passed.
pub proof fn lemma_era(year: int, eras: int)
    ensures
        is_leap(year + 400 * eras) == is_leap(year),
        days_before_year(year + 400 * eras) == days_before_year(year) + 146097 * eras,
        forall|month: int| #[trigger]
            days_in_month(year + 400 * eras, month) == days_in_month(year, month),
{
    lemma_shift(year, 100 * eras, 4);
    lemma_shift(year, 4 * eras, 100);
    lemma_shift(year, eras, 400);
    lemma_shift(year - 1, 100 * eras, 4);
    lemma_shift(year - 1, 4 * eras, 100);
    lemma_shift(year - 1, eras, 400);
    assert(year + 400 * eras == year + 4 * (100 * eras));
    assert(year + 400 * eras == year + 100 * (4 * eras));
    assert(year + 400 * eras - 1 == (year - 1) + 4 * (100 * eras));
    assert(year + 400 * eras - 1 == (year - 1) + 100 * (4 * eras));
    assert(year + 400 * eras - 1 == (year - 1) + 400 * eras);
}

/// Later years begin later.
pub proof fn lemma_years_ascend(a: int, b: int)
    requires
        a <= b,
    ensures
        days_before_year(a) + 365 * (b - a) <= days_before_year(b),
    decreases b - a,
{
    if a < b {
        lemma_years_ascend(a, b - 1);
        lemma_year_step(b - 1);
    }
}

/// The months of a year fill it: twelve of them make up the year, and later
/// months begin later.
pub proof fn lemma_months(year: int, month: int)
    requires
        1 <= month <= 12,
    ensures
        0 <= days_before_month(year, month),
        days_before_month(year, month) + days_in_month(year, month) == days_before_month(
            year,
            month + 1,
        ),
        days_before_month(year, month + 1) <= days_in_year(year),
        days_before_month(year, 13) == days_in_year(year),
        forall|later: int|
            month < later <= 13 ==> days_before_month(year, month + 1) <= #[trigger]
                days_before_month(year, later),
{
    reveal_with_fuel(days_before_month, 14);
}

/// A valid date and time is determined by its epoch seconds.
pub proof fn lemma_epoch_seconds_determine(a: CivilTime, b: CivilTime)
    requires
        a.valid(),
        b.valid(),
        a.epoch_seconds() == b.epoch_seconds(),
    ensures
        a == b,
{
    let sa = a.hour * 3600 + a.minute * 60 + a.second;
    let sb = b.hour * 3600 + b.minute * 60 + b.second;
    assert(0 <= sa < 86400 && 0 <= sb < 86400);
    assert(a.day_number() == b.day_number());
    assert(sa == sb);
    lemma_day_number_determines(a, b);
}

/// A valid date is determined by its day number.
pub proof fn lemma_day_number_determines(a: CivilTime, b: CivilTime)
    requires
        a.valid(),
        b.valid(),
        a.day_number() == b.day_number(),
    ensures
        a.year == b.year,
        a.month == b.month,
        a.day == b.day,
{
    lemma_months(a.year as int, a.month as int);
    lemma_months(b.year as int, b.month as int);
    lemma_year_step(a.year as int);
    lemma_year_step(b.year as int);
    if a.year < b.year {
        lemma_years_ascend(a.year + 1, b.year as int);
    } else if b.year < a.year {
        lemma_years_ascend(b.year + 1, a.year as int);
    }
}

/// The date and time that lie the given number of seconds after the start of
/// 1970, or before it for a negative number.
pub open spec fn civil_of(seconds: int) -> CivilTime {
    choose|t: CivilTime| t.valid() && t.epoch_seconds() == seconds
}

/// A number below 100 as two digits.
pub open spec fn two_digits(n: int) -> Seq<char> {
    seq![digit_char(n / 10), digit_char(n % 10)]
}

/// A natural number in at least four digits, zeros in front where it has
/// fewer.
pub open spec fn four_digits(n: nat) -> Seq<char> {
    if n < 10 {
        seq!['0', '0', '0'] + decimal(n)
    } else if n < 100 {
        seq!['0', '0'] + decimal(n)
    } else if n < 1000 {
        seq!['0'] + decimal(n)
    } else {
        decimal(n)
    }
}

/// A year in at least four digits, with a minus sign before a negative one.
pub open spec fn year_text(year: int) -> Seq<char> {
    if year < 0 {
        seq!['-'] + four_digits((-year) as nat)
    } else {
        four_digits(year as nat)
    }
}

/// A date and time as text: year, month and day with hyphens between, a `T`,
/// hour, minute and second with colons between, and a `Z` for UTC.
pub open spec fn civil_text(t: CivilTime) -> Seq<char> {
    year_text(t.year as int) + seq!['-'] + two_digits(t.month as int) + seq!['-'] + two_digits(
        t.day as int,
    ) + seq!['T'] + two_digits(t.hour as int) + seq![':'] + two_digits(t.minute as int) + seq![':']
        + two_digits(t.second as int) + seq!['Z']
}

/// The text of the date and time at the given epoch seconds.
pub open spec fn time_text(seconds: int) -> Seq<char> {
    civil_text(civil_of(seconds))
}

/// The calendar repeats month by month after 400 years.
proof fn lemma_era_months(year: int, eras: int, month: int)
    ensures
        days_before_month(year + 400 * eras, month) == days_before_month(year, month),
    decreases month,
{
    if month > 1 {
        lemma_era_months(year, eras, month - 1);
        lemma_era(year, eras);
    }
}

/// Decides whether a year has a 29th of February.
fn leap(year: u64) -> (r: bool)
    ensures
        r == is_leap(year as int),
{
    year % 4 == 0 && (year % 100 != 0 || year % 400 == 0)
}

/// The number of days of a year.
fn year_length(year: u64) -> (days: u64)
    ensures
        days == days_in_year(year as int),
{
    if leap(year) {
        366
    } else {
        365
    }
}

/// The number of days of a month in a leap year or another.
fn month_length(leap_year: bool, month: u8) -> (days: u64)
    requires
        1 <= month <= 12,
    ensures
        forall|year: int| is_leap(year) == leap_year ==> days == #[trigger] days_in_month(
            year,
            month as int,
        ),
        28 <= days <= 31,
{
    if month == 2 {
        if leap_year {
            29
        } else {
            28
        }
    } else if month == 4 || month == 6 || month == 9 || month == 11 {
        30
    } else {
        31
    }
}

/// How many whole eras the epoch seconds are shifted by, so that every `i64`
/// lands in the non-negative range.
const SHIFT_ERAS: u64 = 800_000_000;

/// Seconds in 400 years.
const ERA_SECONDS: u64 = 12_622_780_800;

/// The date and time, in UTC, at the given number of seconds from the start
/// of 1970.
pub fn civil_time(seconds: i64) -> (t: CivilTime)
    ensures
        t.valid(),
        t.epoch_seconds() == seconds,
        t == civil_of(seconds as int),
{
    let shifted: u128 = (seconds as i128 + (SHIFT_ERAS as i128) * (ERA_SECONDS as i128)) as u128;
    let days: u128 = shifted / (DAY_SECONDS as u128);
    let second_of_day: u64 = (shifted % (DAY_SECONDS as u128)) as u64;
    let era: u128 = days / (ERA_DAYS as u128);
    let day_of_era: u64 = (days % (ERA_DAYS as u128)) as u64;
    let mut rest: u64 = day_of_era;
    let mut year_of_era: u64 = 0;
    while rest >= year_length(1970 + year_of_era)
        invariant
            year_of_era < 400,
            day_of_era < 146097,
            days_before_year(1970 + year_of_era) + rest == day_of_era,
        decreases 400 - year_of_era,
    {
        proof {
            lemma_year_step(1970 + year_of_era);
            lemma_years_ascend(1970 + year_of_era + 1, 2370);
            lemma_era(1970, 1);
        }
        rest = rest - year_length(1970 + year_of_era);
        year_of_era = year_of_era + 1;
    }
    let base_year: u64 = 1970 + year_of_era;
    let leap_year = leap(base_year);
    let day_of_year: u64 = rest;
    let mut month: u8 = 1;
    proof {
        lemma_months(base_year as int, 1);
    }
    while rest >= month_length(leap_year, month)
        invariant
            1 <= month <= 12,
            leap_year == is_leap(base_year as int),
            day_of_year < days_in_year(base_year as int),
            days_before_month(base_year as int, month as int) + rest == day_of_year,
        decreases 12 - month,
    {
        proof {
            lemma_months(base_year as int, month as int);
            if month < 12 {
                lemma_months(base_year as int, month + 1);
            }
        }
        rest = rest - month_length(leap_year, month);
        month = month + 1;
    }
    let eras: i128 = era as i128 - SHIFT_ERAS as i128;
    let year: i128 = base_year as i128 + 400 * eras;
    let t = CivilTime {
        year: year as i64,
        month,
        day: (rest + 1) as u8,
        hour: (second_of_day / 3600) as u8,
        minute: (second_of_day % 3600 / 60) as u8,
        second: (second_of_day % 60) as u8,
    };
    proof {
        lemma_era(base_year as int, eras as int);
        lemma_era_months(base_year as int, eras as int, month as int);
        assert(shifted == days * 86400 + second_of_day);
        assert(days == era * 146097 + day_of_era);
        assert(t.day_number() == days - 146097 * SHIFT_ERAS);
        assert(t.hour * 3600 + t.minute * 60 + t.second == second_of_day);
        assert(t.valid());
        assert(t.epoch_seconds() == seconds);
        lemma_epoch_seconds_determine(t, civil_of(seconds as int));
    }
    t
}

/// Appends a number below 100 to `out` as two digits.
fn push_two_digits(out: &mut String, n: u8)
    requires
        n < 100,
    ensures
        final(out)@ == old(out)@ + two_digits(n as int),
{
    push_digit(out, n / 10);
    push_digit(out, n % 10);
    assert(out@ =~= old(out)@ + two_digits(n as int));
}

/// Appends a year to `out`.
fn push_year(out: &mut String, year: i64)
    ensures
        final(out)@ == old(out)@ + year_text(year as int),
{
    proof {
        reveal_strlit("-");
        reveal_strlit("0");
        reveal_strlit("00");
        reveal_strlit("000");
    }
    let magnitude: u128 = if year < 0 {
        out.append("-");
        (-(year as i128)) as u128
    } else {
        year as u128
    };
    if magnitude < 10 {
        out.append("000");
    } else if magnitude < 100 {
        out.append("00");
    } else if magnitude < 1000 {
        out.append("0");
    }
    push_decimal(out, magnitude);
    assert(out@ =~= old(out)@ + year_text(year as int));
}

/// Appends a date and time to `out`.
pub fn push_civil_time(out: &mut String, t: CivilTime)
    requires
        t.valid(),
    ensures
        final(out)@ == old(out)@ + civil_text(t),
{
    proof {
        reveal_strlit("-");
        reveal_strlit("T");
        reveal_strlit(":");
        reveal_strlit("Z");
    }
    push_year(out, t.year);
    out.append("-");
    push_two_digits(out, t.month);
    out.append("-");
    push_two_digits(out, t.day);
    out.append("T");
    push_two_digits(out, t.hour);
    out.append(":");
    push_two_digits(out, t.minute);
    out.append(":");
    push_two_digits(out, t.second);
    out.append("Z");
    assert(out@ =~= old(out)@ + civil_text(t));
}

/// Appends to `out` the date and time at the given epoch seconds.
pub fn push_time(out: &mut String, seconds: i64)
    ensures
        final(out)@ == old(out)@ + time_text(seconds as int),
{
    let t = civil_time(seconds);
    push_civil_time(out, t);
}

} // verus!
