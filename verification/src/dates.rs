//! Civil-calendar arithmetic for relative date ranges.
//!
//! Dates are modelled as year/month/day on the proleptic Gregorian calendar
//! and mapped to a day number counted from 0001-01-01 (day 0), which is a
//! Monday; the week containing a day therefore starts at the largest multiple
//! of 7 not above it, which matches the ISO-8601 week (weeks start on Monday,
//! and week 1 of a year is the week holding its first Thursday).

use vstd::prelude::*;

use crate::digits::padded_decimal;
use crate::digits::padded_string;
use chrono::Datelike;

verus! {

pub open spec fn is_leap_year(y: nat) -> bool {
    y % 4 == 0 && (y % 100 != 0 || y % 400 == 0)
}

pub open spec fn days_in_year(y: nat) -> nat {
    if is_leap_year(y) {
        366
    } else {
        365
    }
}

pub open spec fn days_in_month(y: nat, m: nat) -> nat {
    if m == 2 {
        if is_leap_year(y) {
            29
        } else {
            28
        }
    } else if m == 4 || m == 6 || m == 9 || m == 11 {
        30
    } else {
        31
    }
}

/// Days from 0001-01-01 to the first day of year `y`.
pub open spec fn days_before_year(y: nat) -> nat
    decreases y,
{
    if y <= 1 {
        0
    } else {
        days_before_year((y - 1) as nat) + days_in_year((y - 1) as nat)
    }
}

/// Days from the first day of year `y` to the first day of its month `m`.
pub open spec fn days_before_month(y: nat, m: nat) -> nat
    decreases m,
{
    if m <= 1 {
        0
    } else {
        days_before_month(y, (m - 1) as nat) + days_in_month(y, (m - 1) as nat)
    }
}

#[derive(Clone, Copy, Debug, PartialEq, Eq, Structural)]
pub struct CivilDate {
    pub year: u32,
    pub month: u8,
    pub day: u8,
}

pub open spec fn valid_date(d: CivilDate) -> bool {
    &&& 1 <= d.year
    &&& 1 <= d.month <= 12
    &&& 1 <= d.day
    &&& d.day as nat <= days_in_month(d.year as nat, d.month as nat)
}

/// The day number of `d`: days elapsed since 0001-01-01.
pub open spec fn day_number(d: CivilDate) -> int {
    days_before_year(d.year as nat) + days_before_month(d.year as nat, d.month as nat) + d.day - 1
}

/// Splits `z` days counted from the first day of year `y` into the year that
/// day falls in and the remaining days within that year.
pub open spec fn split_year(y: nat, z: nat) -> (nat, nat)
    decreases z,
{
    if z < days_in_year(y) {
        (y, z)
    } else {
        split_year(y + 1, (z - days_in_year(y)) as nat)
    }
}

/// Splits `z` days counted from the first day of month `m` of year `y` into
/// the month that day falls in and the remaining days within that month.
pub open spec fn split_month(y: nat, m: nat, z: nat) -> (nat, nat)
    decreases 12 - m,
{
    if m >= 12 || z < days_in_month(y, m) {
        (m, z)
    } else {
        split_month(y, m + 1, (z - days_in_month(y, m)) as nat)
    }
}

/// The civil date of day number `z`.
pub open spec fn civil_of_day(z: nat) -> CivilDate {
    let (y, zy) = split_year(1, z);
    let (m, zm) = split_month(y, 1, zy);
    CivilDate { year: y as u32, month: m as u8, day: (zm + 1) as u8 }
}

pub proof fn lemma_days_before_year_bounds(y: nat)
    requires
        1 <= y,
    ensures
        365 * (y - 1) <= days_before_year(y) <= 366 * (y - 1),
    decreases y,
{
    if y > 1 {
        lemma_days_before_year_bounds((y - 1) as nat);
    }
}

/// The months of a year sum to its length.
pub proof fn lemma_year_months(y: nat)
    ensures
        days_before_month(y, 13) == days_in_year(y),
{
    reveal_with_fuel(days_before_month, 14);
}

pub proof fn lemma_split_year(y: nat, z: nat)
    requires
        1 <= y,
    ensures
        ({
            let (ry, rr) = split_year(y, z);
            &&& y <= ry
            &&& rr < days_in_year(ry)
            &&& days_before_year(ry) + rr == days_before_year(y) + z
        }),
    decreases z,
{
    if z >= days_in_year(y) {
        lemma_split_year(y + 1, (z - days_in_year(y)) as nat);
    }
}

pub proof fn lemma_split_month(y: nat, m: nat, z: nat)
    requires
        1 <= m <= 12,
        days_before_month(y, m) + z < days_in_year(y),
    ensures
        ({
            let (rm, rr) = split_month(y, m, z);
            &&& m <= rm <= 12
            &&& rr < days_in_month(y, rm)
            &&& days_before_month(y, rm) + rr == days_before_month(y, m) + z
        }),
    decreases 12 - m,
{
    lemma_year_months(y);
    if !(m >= 12 || z < days_in_month(y, m)) {
        lemma_split_month(y, m + 1, (z - days_in_month(y, m)) as nat);
    }
}

/// `civil_of_day` is a valid date and inverts `day_number`.
pub proof fn lemma_civil_of_day(z: nat)
    requires
        z <= 40_000_000_000,
    ensures
        valid_date(civil_of_day(z)),
        day_number(civil_of_day(z)) == z,
        civil_of_day(z).year <= z / 365 + 1,
{
    lemma_split_year(1, z);
    let (y, zy) = split_year(1, z);
    lemma_split_month(y, 1, zy);
    let (m, zm) = split_month(y, 1, zy);
    lemma_days_before_year_bounds(y);
    assert(365 * (y - 1) <= z);
    assert(y <= z / 365 + 1);
    assert(y < 0x1_0000_0000);
    assert(m <= 12 && zm + 1 <= 31);
}

fn leap_year(y: u64) -> (r: bool)
    ensures
        r == is_leap_year(y as nat),
{
    y % 4 == 0 && (y % 100 != 0 || y % 400 == 0)
}

fn year_len(y: u64) -> (r: u16)
    ensures
        r as nat == days_in_year(y as nat),
{
    if leap_year(y) {
        366
    } else {
        365
    }
}

fn month_len(y: u64, m: u8) -> (r: u8)
    requires
        1 <= m <= 12,
    ensures
        r as nat == days_in_month(y as nat, m as nat),
{
    if m == 2 {
        if leap_year(y) {
            29
        } else {
            28
        }
    } else if m == 4 || m == 6 || m == 9 || m == 11 {
        30
    } else {
        31
    }
}

pub fn to_day_number(d: &CivilDate) -> (z: u64)
    requires
        valid_date(*d),
        d.year <= 300_000,
    ensures
        z == day_number(*d),
        z <= 366 * 300_001,
{
    let mut y: u64 = 1;
    let mut sum: u64 = 0;
    while y < d.year as u64
        invariant
            1 <= y <= d.year,
            d.year <= 300_000,
            sum == days_before_year(y as nat),
            sum <= 366 * (y - 1),
        decreases d.year - y,
    {
        sum = sum + year_len(y) as u64;
        y = y + 1;
    }
    let mut m: u8 = 1;
    let mut msum: u16 = 0;
    while m < d.month
        invariant
            1 <= m <= d.month,
            d.month <= 12,
            msum == days_before_month(d.year as nat, m as nat),
            msum <= 31 * (m - 1),
        decreases d.month - m,
    {
        msum = msum + month_len(d.year as u64, m) as u16;
        m = m + 1;
    }
    sum + msum as u64 + (d.day - 1) as u64
}

pub fn from_day_number(z: u64) -> (d: CivilDate)
    requires
        z <= 40_000_000_000,
    ensures
        d == civil_of_day(z as nat),
        valid_date(d),
        day_number(d) == z,
{
    proof {
        lemma_civil_of_day(z as nat);
    }
    let mut y: u64 = 1;
    let mut rem: u64 = z;
    let mut yl: u16 = year_len(y);
    while rem >= yl as u64
        invariant
            1 <= y,
            yl as nat == days_in_year(y as nat),
            rem <= z <= 40_000_000_000,
            365 * (y - 1) <= z - rem,
            split_year(y as nat, rem as nat) == split_year(1, z as nat),
        decreases rem,
    {
        rem = rem - yl as u64;
        y = y + 1;
        yl = year_len(y);
    }
    let ghost zy: nat = rem as nat;
    proof {
        assert(split_year(y as nat, rem as nat) == (y as nat, rem as nat));
    }
    let mut m: u8 = 1;
    let mut ml: u8 = month_len(y, 1);
    while m < 12 && rem >= ml as u64
        invariant
            1 <= m <= 12,
            yl as nat == days_in_year(y as nat),
            ml as nat == days_in_month(y as nat, m as nat),
            days_before_month(y as nat, m as nat) + rem < days_in_year(y as nat),
            split_month(y as nat, m as nat, rem as nat) == split_month(y as nat, 1, zy),
        decreases 12 - m,
    {
        rem = rem - ml as u64;
        m = m + 1;
        ml = month_len(y, m);
    }
    proof {
        assert(split_month(y as nat, m as nat, rem as nat) == (m as nat, rem as nat));
        lemma_year_months(y as nat);
    }
    let day: u8 = rem as u8 + 1;
    CivilDate { year: y as u32, month: m, day }
}

/// The Monday on or before day number `z`: the start of the ISO week
/// containing it.
pub open spec fn monday_of(z: int) -> int {
    z - z % 7
}

/// A relative date range, as the flags select it.
#[derive(Clone, Copy, Debug, PartialEq, Eq, Structural)]
pub enum DateRange {
    Today,
    Tomorrow,
    CurrentWeek,
    NWeeksAhead(u32),
}

/// The inclusive day-number pair `[start, end]` that a relative range
/// resolves to, given the day number `z` of the current date.
pub open spec fn spec_range_days(z: int, r: DateRange) -> (int, int) {
    match r {
        DateRange::Today => (z, z),
        DateRange::Tomorrow => (z + 1, z + 1),
        DateRange::CurrentWeek => (monday_of(z), monday_of(z) + 6),
        DateRange::NWeeksAhead(n) => (monday_of(z), monday_of(z) + 7 * (n as int) + 6),
    }
}

/// Every relative range is ordered: its start does not exceed its end.
pub proof fn lemma_range_start_le_end(z: int, r: DateRange)
    requires
        z >= 0,
    ensures
        spec_range_days(z, r).0 <= spec_range_days(z, r).1,
{
}

/// Asking for zero weeks ahead yields exactly the current ISO week.
pub proof fn lemma_zero_weeks_is_current_week(z: int)
    ensures
        spec_range_days(z, DateRange::NWeeksAhead(0)) == spec_range_days(z, DateRange::CurrentWeek),
{
}

/// The start of the current week is a Monday (day number divisible by 7,
/// since day 0 is a Monday), lies at most six days back, and the week's
/// seven days contain the current date, whichever calendar year they span.
pub proof fn lemma_week_contains_today(z: int)
    requires
        z >= 0,
    ensures
        monday_of(z) % 7 == 0,
        monday_of(z) <= z < monday_of(z) + 7,
{
}

pub open spec fn spec_date_chars(d: CivilDate) -> Seq<char> {
    padded_decimal(d.year as nat, 4) + "-"@ + padded_decimal(d.month as nat, 2) + "-"@
        + padded_decimal(d.day as nat, 2)
}

/// `d` as `YYYY-MM-DD` (the year unpadded beyond four digits when larger).
pub fn date_string(d: &CivilDate) -> (r: String)
    ensures
        r@ == spec_date_chars(*d),
{
    let mut s = padded_string(d.year as u64, 4);
    s.append("-");
    let ms = padded_string(d.month as u64, 2);
    s.append(ms.as_str());
    s.append("-");
    let ds = padded_string(d.day as u64, 2);
    s.append(ds.as_str());
    s
}

pub open spec fn spec_time_min_chars(d: CivilDate) -> Seq<char> {
    spec_date_chars(d) + "T00:00:00.000Z"@
}

pub open spec fn spec_time_max_chars(d: CivilDate) -> Seq<char> {
    spec_date_chars(d) + "T23:59:59.000Z"@
}

/// The resolved absolute bounds of a relative range: the start and end dates
/// and the `timeMin`/`timeMax` strings, midnight to end of day.
pub struct RangeBounds {
    pub start: CivilDate,
    pub end: CivilDate,
    pub time_min: String,
    pub time_max: String,
}

pub fn range_bounds(today: &CivilDate, r: DateRange) -> (b: RangeBounds)
    requires
        valid_date(*today),
        today.year <= 300_000,
    ensures
        ({
            let z = day_number(*today);
            let (s, e) = spec_range_days(z, r);
            &&& b.start == civil_of_day(s as nat)
            &&& b.end == civil_of_day(e as nat)
            &&& valid_date(b.start)
            &&& valid_date(b.end)
            &&& day_number(b.start) == s
            &&& day_number(b.end) == e
            &&& s <= e
            &&& b.time_min@ == spec_time_min_chars(b.start)
            &&& b.time_max@ == spec_time_max_chars(b.end)
        }),
{
    let z: u64 = to_day_number(today);
    let (sz, ez): (u64, u64) = match r {
        DateRange::Today => (z, z),
        DateRange::Tomorrow => (z + 1, z + 1),
        DateRange::CurrentWeek => {
            let mon: u64 = z - z % 7;
            (mon, mon + 6)
        },
        DateRange::NWeeksAhead(n) => {
            let mon: u64 = z - z % 7;
            (mon, mon + 7 * (n as u64) + 6)
        },
    };
    let start = from_day_number(sz);
    let end = from_day_number(ez);
    let mut time_min = date_string(&start);
    time_min.append("T00:00:00.000Z");
    let mut time_max = date_string(&end);
    time_max.append("T23:59:59.000Z");
    RangeBounds { start, end, time_min, time_max }
}

/// Relies on `chrono::offset::Local::now` and the `chrono::Datelike`
/// accessors: the current local calendar date, with `month()` in `1..=12`,
/// `day()` in `1..=31` and never past the month's length, and the year within
/// chrono's documented `NaiveDate` range of roughly ±262000.
#[verifier::external_body]
fn local_today() -> (r: (i64, u64, u64))
    ensures
        -300_000 <= r.0 <= 300_000,
        1 <= r.1 <= 12,
        1 <= r.2 <= 31,
        r.0 >= 1 ==> r.2 as nat <= days_in_month(r.0 as nat, r.1 as nat),
{
    let now = chrono::offset::Local::now();
    (now.year() as i64, now.month() as u64, now.day() as u64)
}

/// The current local date from the system clock, or `None` when the clock
/// reports a year outside the supported range.
pub fn current_date() -> (r: Option<CivilDate>)
    ensures
        r matches Some(d) ==> valid_date(d) && d.year <= 300_000,
{
    let (y, m, mday) = local_today();
    if 1 <= y {
        Some(CivilDate { year: y as u32, month: m as u8, day: mday as u8 })
    } else {
        None
    }
}

} // verus!
