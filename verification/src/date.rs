//! Calendar arithmetic: turning a count of days since the Unix epoch into a
//! proleptic Gregorian date.
use vstd::prelude::*;

verus! {

/// Gregorian leap-year rule.
pub open spec fn is_leap_year(y: int) -> bool {
    y % 4 == 0 && (y % 100 != 0 || y % 400 == 0)
}

/// Number of days in month `m` (1..=12) of year `y`.
pub open spec fn days_in_month(y: int, m: int) -> int {
    if m == 2 {
        if is_leap_year(y) { 29 } else { 28 }
    } else if m == 4 || m == 6 || m == 9 || m == 11 {
        30
    } else {
        31
    }
}

/// A calendar date that exists in the proleptic Gregorian calendar.
pub open spec fn is_valid_date(y: int, m: int, d: int) -> bool {
    &&& 1 <= m <= 12
    &&& 1 <= d <= days_in_month(y, m)
}

/// Count of leap years among 1..=y (extended to all integers by floor division).
pub open spec fn leap_years_through(y: int) -> int {
    y / 4 - y / 100 + y / 400
}

/// Days in the months of a common year that precede month `m`.
pub open spec fn common_days_before_month(m: int) -> int {
    if m <= 1 { 0 }
    else if m == 2 { 31 }
    else if m == 3 { 59 }
    else if m == 4 { 90 }
    else if m == 5 { 120 }
    else if m == 6 { 151 }
    else if m == 7 { 181 }
    else if m == 8 { 212 }
    else if m == 9 { 243 }
    else if m == 10 { 273 }
    else if m == 11 { 304 }
    else { 334 }
}

/// Days from 1970-01-01 to the first day of year `y` (negative before 1970).
pub open spec fn days_before_year(y: int) -> int {
    365 * (y - 1970) + leap_years_through(y - 1) - leap_years_through(1969)
}

/// Days from the first of January of year `y` to the first day of month `m`.
pub open spec fn days_before_month(y: int, m: int) -> int {
    common_days_before_month(m) + if m > 2 && is_leap_year(y) { 1int } else { 0int }
}

/// The day number of a date: how many days it lies after 1970-01-01.
pub open spec fn days_from_civil(y: int, m: int, d: int) -> int {
    days_before_year(y) + days_before_month(y, m) + d - 1
}

/// Within a 400-year era that starts on the first of March, the year of the era
/// that a day of the era falls in.
proof fn lemma_year_of_era(doe: u32)
    requires
        doe < 146097,
    ensures
        ({
            let yoe = (doe - doe / 1460 + doe / 36524 - doe / 146096) / 365;
            let start = 365 * yoe + yoe / 4 - yoe / 100;
            let next = 365 * (yoe + 1) + (yoe + 1) / 4 - (yoe + 1) / 100 + (yoe + 1) / 400;
            &&& yoe < 400
            &&& start <= doe
            &&& doe < next
        }),
{
    assert({
        let yoe = (doe - doe / 1460 + doe / 36524 - doe / 146096) / 365;
        let start = 365 * yoe + yoe / 4 - yoe / 100;
        let next = 365 * (yoe + 1) + (yoe + 1) / 4 - (yoe + 1) / 100 + (yoe + 1) / 400;
        &&& yoe < 400
        &&& start <= doe
        &&& doe < next
    }) by (bit_vector)
        requires
            doe < 146097u32,
    ;
}

/// Within a year that starts on the first of March, the month (0 = March) that
/// a day of the year falls in.
proof fn lemma_month_of_year(doy: u32)
    requires
        doy < 366,
    ensures
        ({
            let mp = (5 * doy + 2) / 153;
            &&& mp < 12
            &&& (153 * mp + 2) / 5 <= doy
            &&& doy < (153 * (mp + 1) + 2) / 5
        }),
{
    assert({
        let mp = (5 * doy + 2) / 153;
        &&& mp < 12
        &&& (153 * mp + 2) / 5 <= doy
        &&& doy < (153 * (mp + 1) + 2) / 5
    }) by (bit_vector)
        requires
            doy < 366u32,
    ;
}

/// Leap years are counted by `leap_years_through`.
proof fn lemma_leap_count_step(y: int)
    ensures
        leap_years_through(y) == leap_years_through(y - 1) + if is_leap_year(y) { 1int } else { 0int },
{
}

/// Counting days from the first of March of year 0: an era of 400 years holds
/// 146097 days, and the years before year `y` of era `era` add up as the
/// leap-year rule says.
proof fn lemma_era_days(era: int, yoe: int)
    requires
        0 <= yoe < 400,
    ensures
        146097 * era + (365 * yoe + yoe / 4 - yoe / 100)
            == 365 * (400 * era + yoe) + leap_years_through(400 * era + yoe),
{
    let big_y = 400 * era + yoe;
    assert(big_y / 4 == era * 100 + yoe / 4);
    assert(big_y / 100 == era * 4 + yoe / 100);
    assert(big_y / 400 == era);
}

/// Floor division of a negative number, written with division of a positive one.
proof fn lemma_floor_of_negative(z: int)
    requires
        z < 0,
    ensures
        z / 146097 == -((146096 - z) / 146097),
{
    let w = 146096 - z;
    let a = w / 146097;
    let r = w % 146097;
    assert(w == 146097 * a + r);
    assert(z == -146097 * a + (146096 - r));
}

/// The leap-year rule repeats every 400 years.
proof fn lemma_leap_period(era: int, k: int)
    ensures
        is_leap_year(400 * era + k) == is_leap_year(k),
{
    assert((400 * era + k) % 4 == k % 4);
    assert((400 * era + k) % 100 == k % 100);
    assert((400 * era + k) % 400 == k % 400);
}

/// The day number of the date in month `mp` (0 = March) and day `d` of the
/// March-based year `big_y`.
proof fn lemma_march_based(big_y: int, mp: int, doy: int, d: int)
    requires
        0 <= mp < 12,
        (153 * mp + 2) / 5 <= doy,
        doy < (153 * (mp + 1) + 2) / 5,
        doy < 365 + if is_leap_year(big_y + 1) { 1int } else { 0int },
        d == doy - (153 * mp + 2) / 5 + 1,
    ensures
        ({
            let m = if mp < 10 { mp + 3 } else { mp - 9 };
            let y = if m <= 2 { big_y + 1 } else { big_y };
            &&& is_valid_date(y, m, d)
            &&& days_from_civil(y, m, d)
                == 365 * big_y + leap_years_through(big_y) + doy - 719468
        }),
{
    lemma_leap_count_step(big_y);
    if mp < 10 {
        assert(common_days_before_month(mp + 3) == (153 * mp + 2) / 5 + 59);
    } else {
        assert(common_days_before_month(mp - 9) == (153 * mp + 2) / 5 - 306);
    }
}

/// The date `days` days after 1970-01-01 (negative values count backwards).
///
/// The result is a valid Gregorian date whose day number is `days`.
#[verifier::spinoff_prover]
#[verifier::rlimit(40)]
pub fn civil_from_days(days: i64) -> (r: (i64, i64, i64))
    requires
        days <= i64::MAX - 719468,
    ensures
        is_valid_date(r.0 as int, r.1 as int, r.2 as int),
        days_from_civil(r.0 as int, r.1 as int, r.2 as int) == days,
{
    let z = days + 719468;
    let era = if z >= 0 { z / 146097 } else { (z - 146096) / 146097 };
    let doe = z - era * 146097;
    assert(era == z / 146097 && 0 <= doe < 146097) by {
        if z < 0 {
            lemma_floor_of_negative(z as int);
        }
    }
    let yoe = (doe - doe / 1460 + doe / 36524 - doe / 146096) / 365;
    proof {
        lemma_year_of_era(doe as u32);
    }
    let y = yoe + era * 400;
    let doy = doe - (365 * yoe + yoe / 4 - yoe / 100);
    proof {
        lemma_month_of_year(doy as u32);
    }
    let mp = (5 * doy + 2) / 153;
    let d = doy - (153 * mp + 2) / 5 + 1;
    let m = if mp < 10 { mp + 3 } else { mp - 9 };
    let y = if m <= 2 { y + 1 } else { y };
    proof {
        let big_y = yoe + era * 400;
        lemma_era_days(era as int, yoe as int);
        lemma_leap_period(era as int, yoe + 1);
        lemma_march_based(big_y as int, mp as int, doy as int, d as int);
    }
    (y, m, d)
}


/// The year lengths that `days_before_year` adds up.
proof fn lemma_year_step(y: int)
    ensures
        days_before_year(y + 1) == days_before_year(y) + 365 + if is_leap_year(y) { 1int } else { 0int },
{
    lemma_leap_count_step(y);
}

/// Later years start on later days: at least 365 days per year in between.
proof fn lemma_years_increase(y1: int, y2: int)
    requires
        y1 <= y2,
    ensures
        days_before_year(y2) >= days_before_year(y1) + 365 * (y2 - y1),
    decreases y2 - y1,
{
    if y1 < y2 {
        lemma_years_increase(y1, y2 - 1);
        lemma_year_step(y2 - 1);
    }
}

/// A valid date lies inside its year.
proof fn lemma_date_within_year(y: int, m: int, d: int)
    requires
        is_valid_date(y, m, d),
    ensures
        days_before_year(y) <= days_from_civil(y, m, d) < days_before_year(y + 1),
{
    lemma_year_step(y);
}

/// Within a year, a valid date lies inside its month.
proof fn lemma_months_ordered(y: int, m1: int, d1: int, m2: int, d2: int)
    requires
        is_valid_date(y, m1, d1),
        is_valid_date(y, m2, d2),
        m1 < m2,
    ensures
        days_before_month(y, m1) + d1 < days_before_month(y, m2) + d2,
{
}

/// Different valid dates have different day numbers, so `civil_from_days`
/// gives the only date with the requested day number.
pub proof fn lemma_days_from_civil_injective(y1: int, m1: int, d1: int, y2: int, m2: int, d2: int)
    requires
        is_valid_date(y1, m1, d1),
        is_valid_date(y2, m2, d2),
        days_from_civil(y1, m1, d1) == days_from_civil(y2, m2, d2),
    ensures
        y1 == y2 && m1 == m2 && d1 == d2,
{
    lemma_date_within_year(y1, m1, d1);
    lemma_date_within_year(y2, m2, d2);
    if y1 < y2 {
        lemma_years_increase(y1 + 1, y2);
    } else if y2 < y1 {
        lemma_years_increase(y2 + 1, y1);
    }
    assert(y1 == y2);
    if m1 < m2 {
        lemma_months_ordered(y1, m1, d1, m2, d2);
    } else if m2 < m1 {
        lemma_months_ordered(y1, m2, d2, m1, d1);
    }
}

/// `t` is a valid date whose day number is `days`.
pub open spec fn is_date_of(t: (int, int, int), days: int) -> bool {
    is_valid_date(t.0, t.1, t.2) && days_from_civil(t.0, t.1, t.2) == days
}

/// The date whose day number is `days`.
pub open spec fn civil_of(days: int) -> (int, int, int) {
    choose|t: (int, int, int)| is_date_of(t, days)
}

/// A date with the requested day number is the one `civil_of` names.
#[verifier::spinoff_prover]
pub proof fn lemma_civil_of(days: int, y: int, m: int, d: int)
    requires
        is_valid_date(y, m, d),
        days_from_civil(y, m, d) == days,
    ensures
        civil_of(days) == (y, m, d),
{
    assert(is_date_of((y, m, d), days));
    let t = civil_of(days);
    assert(is_date_of(t, days));
    lemma_days_from_civil_injective(t.0, t.1, t.2, y, m, d);
}

/// The calendar day after a date.
pub open spec fn next_day(t: (int, int, int)) -> (int, int, int) {
    if t.2 < days_in_month(t.0, t.1) {
        (t.0, t.1, t.2 + 1)
    } else if t.1 < 12 {
        (t.0, t.1 + 1, 1)
    } else {
        (t.0 + 1, 1, 1)
    }
}

/// The day after a valid date is a valid date one day number later, and it
/// is the date that the next day number names: the dates of consecutive day
/// numbers (as `civil_from_days` gives them) are consecutive calendar days.
pub proof fn lemma_next_day(y: int, m: int, d: int)
    requires
        is_valid_date(y, m, d),
    ensures
        ({
            let n = next_day((y, m, d));
            &&& is_valid_date(n.0, n.1, n.2)
            &&& days_from_civil(n.0, n.1, n.2) == days_from_civil(y, m, d) + 1
            &&& civil_of(days_from_civil(y, m, d) + 1) == n
        }),
{
    let n = next_day((y, m, d));
    if d < days_in_month(y, m) {
    } else if m < 12 {
        assert(days_before_month(y, m + 1) == days_before_month(y, m) + days_in_month(y, m));
    } else {
        lemma_year_step(y);
    }
    lemma_civil_of(days_from_civil(y, m, d) + 1, n.0, n.1, n.2);
}

} // verus!
