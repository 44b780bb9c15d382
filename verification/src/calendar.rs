//! Proleptic Gregorian calendar arithmetic and timestamp formatting.

use vstd::prelude::*;
use crate::text::{padded_decimal, pow10, push_padded, lemma_padded_decimal_len};

verus! {

/// Leap-year rule of the Gregorian calendar.
pub open spec fn is_leap_year(y: int) -> bool {
    y % 4 == 0 && (y % 100 != 0 || y % 400 == 0)
}

/// Number of days in month `m` (1..=12) of year `y`.
pub open spec fn days_in_month(y: int, m: int) -> int {
    if m == 2 {
        if is_leap_year(y) { 29 } else { 28 }
    } else if m == 4 || m == 6 || m == 9 || m == 11 {
        30
    } else {
        31
    }
}

/// A real calendar date.
pub open spec fn is_valid_date(y: int, m: int, d: int) -> bool {
    1 <= m <= 12 && 1 <= d <= days_in_month(y, m)
}

/// Leap years among the years `1..=n` (for any integer `n`, the difference
/// `leaps_through(b) - leaps_through(a)` counts the leap years in `(a, b]`).
pub open spec fn leaps_through(n: int) -> int {
    n / 4 - n / 100 + n / 400
}

/// Days from 1970-01-01 to January 1st of year `y`.
pub open spec fn days_before_year(y: int) -> int {
    365 * (y - 1970) + leaps_through(y - 1) - leaps_through(1969)
}

/// Days from January 1st of year `y` to the first day of month `m`.
pub open spec fn days_before_month(y: int, m: int) -> int {
    let base: int = if m == 1 { 0 }
        else if m == 2 { 31 }
        else if m == 3 { 59 }
        else if m == 4 { 90 }
        else if m == 5 { 120 }
        else if m == 6 { 151 }
        else if m == 7 { 181 }
        else if m == 8 { 212 }
        else if m == 9 { 243 }
        else if m == 10 { 273 }
        else if m == 11 { 304 }
        else { 334 };
    if m > 2 && is_leap_year(y) { base + 1 } else { base }
}

/// Days since the Unix epoch (1970-01-01 is day 0) of the date `y-m-d`.
pub open spec fn days_from_civil(y: int, m: int, d: int) -> int {
    days_before_year(y) + days_before_month(y, m) + d - 1
}

// ---- the 400-year era decomposition behind the fast conversion ----

/// Days before year `yoe` of an era, counting years from March 1st.
pub open spec fn days_before_year_of_era(yoe: int) -> int {
    365 * yoe + yoe / 4 - yoe / 100
}

/// Year of era containing day `doe` of the era.
pub open spec fn year_of_era(doe: int) -> int {
    (doe - doe / 1460 + doe / 36524 - doe / 146096) / 365
}

/// Within one era the year formula lands on the year whose days contain `doe`.
proof fn lemma_year_of_era(doe: int)
    requires
        0 <= doe <= 146096,
    ensures
        0 <= year_of_era(doe) <= 399,
        0 <= doe - days_before_year_of_era(year_of_era(doe)) <= 365,
        doe - days_before_year_of_era(year_of_era(doe)) == 365
            ==> is_leap_year(year_of_era(doe) + 1),
{
    let c = doe / 36524 - doe / 146096;
    assert(0 <= c <= 3);
    let r1 = doe - 36524 * c;
    assert(0 <= r1 <= 36524);
    assert(r1 == 36524 ==> c == 3);
    let q = r1 / 1461;
    let r2 = r1 % 1461;
    assert(0 <= q <= 24);
    assert(r1 == 1461 * q + r2);
    let t = if r2 / 365 > 3 { 3 } else { r2 / 365 };
    let r3 = r2 - 365 * t;
    assert(0 <= t <= 3);
    assert(0 <= r3 <= 365);
    assert(r3 == 365 ==> t == 3 && r2 == 1460);
    assert(r2 == 1460 && q == 24 ==> c == 3);
    let yoe = 100 * c + 4 * q + t;
    let rr = 24 * c + q + 365 * t + r3;
    assert(doe == 1460 * (25 * c + q) + rr);
    let e: int = if rr >= 1460 { 1 } else { 0 };
    assert(doe / 1460 == 25 * c + q + e);
    assert(doe - doe / 1460 + c == 365 * yoe + r3 - e);
    assert(0 <= r3 - e <= 364);
    assert(year_of_era(doe) == yoe);
    assert(yoe / 4 == 25 * c + q);
    assert(yoe / 100 == c);
    assert(days_before_year_of_era(yoe) == 36524 * c + 1461 * q + 365 * t);
}

/// Position of month `m` when the year is counted from March (March is 0).
pub open spec fn month_from_march(m: int) -> int {
    if m > 2 { m - 3 } else { m + 9 }
}

/// Day `d` of month `m`, counted from March 1st (March 1st is 0).
pub open spec fn day_from_march(m: int, d: int) -> int {
    (153 * month_from_march(m) + 2) / 5 + d - 1
}

proof fn lemma_leaps_step(y: int)
    ensures
        leaps_through(y) == leaps_through(y - 1) + (if is_leap_year(y) { 1int } else { 0int }),
{
    assert((y - 1) / 4 == if y % 4 == 0 { y / 4 - 1 } else { y / 4 });
    assert((y - 1) / 100 == if y % 100 == 0 { y / 100 - 1 } else { y / 100 });
    assert((y - 1) / 400 == if y % 400 == 0 { y / 400 - 1 } else { y / 400 });
}

proof fn lemma_era_split(era: int, yoe: int)
    requires
        0 <= yoe < 400,
    ensures
        365 * (400 * era + yoe) + leaps_through(400 * era + yoe)
            == 146097 * era + days_before_year_of_era(yoe),
        is_leap_year(400 * era + yoe + 1) == is_leap_year(yoe + 1),
{
    let yy = 400 * era + yoe;
    assert(yy / 4 == 100 * era + yoe / 4);
    assert(yy / 100 == 4 * era + yoe / 100);
    assert(yy / 400 == era);
    assert((yy + 1) % 4 == (yoe + 1) % 4);
    assert((yy + 1) % 100 == (yoe + 1) % 100);
    assert((yy + 1) % 400 == (yoe + 1) % 400);
}

/// The day count of a date, regrouped around March-based years.
proof fn lemma_civil_from_march(y: int, m: int, d: int)
    requires
        1 <= m <= 12,
    ensures
        ({
            let yy = if m <= 2 { y - 1 } else { y };
            days_from_civil(y, m, d) == 365 * yy + leaps_through(yy) + day_from_march(m, d) - 719468
        }),
{
    lemma_leaps_step(y);
    assert(leaps_through(1969) == 477);
}

/// Splitting a day of a March-based year into month and day.
proof fn lemma_month_of_day(yy: int, doy: int)
    requires
        0 <= doy <= 365,
        doy == 365 ==> is_leap_year(yy + 1),
    ensures
        ({
            let mp = (5 * doy + 2) / 153;
            let d = doy - (153 * mp + 2) / 5 + 1;
            let m = if mp < 10 { mp + 3 } else { mp - 9 };
            let y = if m <= 2 { yy + 1 } else { yy };
            &&& 0 <= mp <= 11
            &&& month_from_march(m) == mp
            &&& is_valid_date(y, m, d)
            &&& day_from_march(m, d) == doy
        }),
{
}

proof fn lemma_year_length(y: int)
    ensures
        days_before_year(y + 1) == days_before_year(y) + 365 + (if is_leap_year(y) { 1int } else { 0int }),
{
    lemma_leaps_step(y);
}

proof fn lemma_years_increase(a: int, b: int)
    requires
        a < b,
    ensures
        days_before_year(a) + 365 <= days_before_year(b),
    decreases b - a,
{
    lemma_year_length(a);
    if a + 1 < b {
        lemma_years_increase(a + 1, b);
    }
}

/// A valid date lies within the days of its own year.
proof fn lemma_date_within_year(y: int, m: int, d: int)
    requires
        is_valid_date(y, m, d),
    ensures
        days_before_year(y) <= days_from_civil(y, m, d) < days_before_year(y + 1),
{
    lemma_year_length(y);
}

/// Different valid dates have different day counts.
pub proof fn lemma_days_from_civil_injective(y1: int, m1: int, d1: int, y2: int, m2: int, d2: int)
    requires
        is_valid_date(y1, m1, d1),
        is_valid_date(y2, m2, d2),
        days_from_civil(y1, m1, d1) == days_from_civil(y2, m2, d2),
    ensures
        y1 == y2 && m1 == m2 && d1 == d2,
{
    lemma_date_within_year(y1, m1, d1);
    lemma_date_within_year(y2, m2, d2);
    if y1 < y2 {
        lemma_years_increase(y1, y2);
        if y1 + 1 < y2 {
            lemma_years_increase(y1 + 1, y2);
        }
    } else if y2 < y1 {
        lemma_years_increase(y2, y1);
        if y2 + 1 < y1 {
            lemma_years_increase(y2 + 1, y1);
        }
    }
    assert(y1 == y2);
}

/// First day number whose year the conversion can hold: the start of the
/// earliest 400-year era whose first year still fits in an `i32`.
pub open spec fn min_day() -> int {
    -784352998241
}

/// Last day number whose year fits in an `i32`: 2147483647-12-31.
pub open spec fn max_day() -> int {
    784351576776
}

/// The days `days_to_ymd` accepts: those whose year an `i32` can hold
/// without the era arithmetic overflowing.
pub open spec fn day_in_range(z: int) -> bool {
    min_day() <= z <= max_day()
}

/// Converts a count of days since the Unix epoch to `(year, month, day)`.
///
/// Uses the 400-year era decomposition of the proleptic Gregorian
/// calendar (Howard Hinnant's civil-calendar algorithm).  The result is the
/// one valid date that lies `z` days after 1970-01-01.
pub fn days_to_ymd(z: i64) -> (r: (i32, u32, u32))
    requires
        day_in_range(z as int),
    ensures
        is_valid_date(r.0 as int, r.1 as int, r.2 as int),
        days_from_civil(r.0 as int, r.1 as int, r.2 as int) == z,
{
    let z = z + 719_468;
    let era = if z >= 0 { z } else { z - 146_096 } / 146_097;
    proof {
        assert(era == (z as int) / 146097);
        assert(-5368709 <= era <= 5368709);
    }
    let doe = (z - era * 146_097) as u32;
    assert(doe == z - era * 146097 && doe <= 146096);
    let yoe = (doe - doe / 1460 + doe / 36524 - doe / 146_096) / 365;
    proof {
        lemma_year_of_era(doe as int);
        lemma_era_split(era as int, yoe as int);
    }
    let doy = doe - (365 * yoe + yoe / 4 - yoe / 100);
    let ghost yy = 400 * era + yoe;
    let mp = (5 * doy + 2) / 153;
    let d = doy - (153 * mp + 2) / 5 + 1;
    let m = if mp < 10 { mp + 3 } else { mp - 9 };
    let ghost year: int = if m <= 2 { yy + 1 } else { yy };
    proof {
        lemma_month_of_day(yy, doy as int);
        lemma_civil_from_march(year, m as int, d as int);
        assert(days_from_civil(year, m as int, d as int) == z - 719468);
        lemma_date_within_year(year, m as int, d as int);
        if year > 2147483647 {
            lemma_date_within_year(2147483647, 12, 31);
            lemma_years_increase(2147483648int, year);
            lemma_years_increase(2147483647, year);
        }
    }
    let y = yoe as i32 + era as i32 * 400;
    let y = if m <= 2 { y + 1 } else { y };
    (y, m, d)
}

/// The date `z` days after 1970-01-01.
pub open spec fn civil_date(z: int) -> (int, int, int) {
    choose|y: int, m: int, d: int| is_valid_date(y, m, d) && days_from_civil(y, m, d) == z
}

/// Day number of the timestamp `secs` (seconds since the epoch).
pub open spec fn timestamp_day(secs: u64) -> int {
    secs as int / 86400
}

/// Hour field of the timestamp.
pub open spec fn timestamp_hour(secs: u64) -> int {
    (secs as int % 86400) / 3600
}

/// Minute field of the timestamp.
pub open spec fn timestamp_minute(secs: u64) -> int {
    (secs as int % 3600) / 60
}

/// Timestamps whose year `format_timestamp` can hold (up to the end of
/// year 2147483647).
pub open spec fn timestamp_in_range(secs: u64) -> bool {
    timestamp_day(secs) <= max_day()
}

/// `DD.MM.YYYY HH:MM` for the timestamp `secs`.
pub open spec fn timestamp_text(secs: u64) -> Seq<char> {
    let (y, m, d) = civil_date(timestamp_day(secs));
    padded_decimal(d, 2) + seq!['.'] + padded_decimal(m, 2) + seq!['.'] + padded_decimal(y, 4)
        + seq![' '] + padded_decimal(timestamp_hour(secs), 2) + seq![':']
        + padded_decimal(timestamp_minute(secs), 2)
}

/// `civil_date` is the date that `days_to_ymd` returns.
proof fn lemma_civil_date_is(z: int, y: int, m: int, d: int)
    requires
        is_valid_date(y, m, d),
        days_from_civil(y, m, d) == z,
    ensures
        civil_date(z) == (y, m, d),
{
    let t = civil_date(z);
    lemma_days_from_civil_injective(t.0, t.1, t.2, y, m, d);
}

/// Whether `format_timestamp` accepts `secs`.
pub fn can_format_timestamp(secs: u64) -> (ok: bool)
    ensures
        ok == timestamp_in_range(secs),
{
    secs / 86400 <= 784351576776
}

/// Formats a Unix timestamp (seconds since the epoch) as `"DD.MM.YYYY HH:MM"`
/// (UTC).
pub fn format_timestamp(secs: u64) -> (s: String)
    requires
        timestamp_in_range(secs),
    ensures
        s@ == timestamp_text(secs),
{
    let days = (secs / 86400) as i64;
    let (y, m, d) = days_to_ymd(days);
    proof { lemma_civil_date_is(timestamp_day(secs), y as int, m as int, d as int); }
    let hh = ((secs % 86400) / 3600) as i64;
    let mm = ((secs % 3600) / 60) as i64;
    let mut out = String::new();
    push_padded(&mut out, d as i64, 2);
    out.append(".");
    push_padded(&mut out, m as i64, 2);
    out.append(".");
    push_padded(&mut out, y as i64, 4);
    out.append(" ");
    push_padded(&mut out, hh, 2);
    out.append(":");
    push_padded(&mut out, mm, 2);
    proof {
        reveal_strlit(".");
        reveal_strlit(" ");
        reveal_strlit(":");
        assert(out@ =~= timestamp_text(secs));
    }
    out
}

/// Every day number is the day count of some valid date.
pub proof fn lemma_civil_date_exists(z: int)
    ensures
        is_valid_date(civil_date(z).0, civil_date(z).1, civil_date(z).2),
        days_from_civil(civil_date(z).0, civil_date(z).1, civil_date(z).2) == z,
{
    let zz = z + 719468;
    let era = zz / 146097;
    let doe = zz - era * 146097;
    let yoe = year_of_era(doe);
    lemma_year_of_era(doe);
    lemma_era_split(era, yoe);
    let doy = doe - days_before_year_of_era(yoe);
    let yy = 400 * era + yoe;
    lemma_month_of_day(yy, doy);
    let mp = (5 * doy + 2) / 153;
    let d = doy - (153 * mp + 2) / 5 + 1;
    let m = if mp < 10 { mp + 3 } else { mp - 9 };
    let y = if m <= 2 { yy + 1 } else { yy };
    lemma_civil_from_march(y, m, d);
    assert(is_valid_date(y, m, d) && days_from_civil(y, m, d) == z);
}

/// `format_timestamp` always gives 16 characters while the year has at
/// most four digits.
pub proof fn lemma_timestamp_text_len(secs: u64)
    requires
        civil_date(timestamp_day(secs)).0 <= 9999,
    ensures
        timestamp_text(secs).len() == 16,
{
    let z = timestamp_day(secs);
    lemma_civil_date_exists(z);
    assert(pow10(2) == 100 && pow10(3) == 1000 && pow10(4) == 10000) by {
        reveal_with_fuel(pow10, 5);
    }
    assert(pow10(1) == 10) by {
        reveal_with_fuel(pow10, 2);
    }
    let (y, m, d) = civil_date(z);
    lemma_date_within_year(y, m, d);
    if y < 1970 {
        lemma_years_increase(y, 1970);
        if y + 1 < 1970 {
            lemma_years_increase(y + 1, 1970);
        }
    }
    assert(y >= 1970);
    lemma_padded_decimal_len(d, 2);
    lemma_padded_decimal_len(m, 2);
    lemma_padded_decimal_len(y, 4);
    lemma_padded_decimal_len(timestamp_hour(secs), 2);
    lemma_padded_decimal_len(timestamp_minute(secs), 2);
}

/// The calendar date after `y-m-d`.
pub open spec fn next_date(y: int, m: int, d: int) -> (int, int, int) {
    if d < days_in_month(y, m) {
        (y, m, d + 1)
    } else if m < 12 {
        (y, m + 1, 1)
    } else {
        (y + 1, 1, 1)
    }
}

/// Consecutive day numbers are consecutive dates: the day after `z` is
/// the calendar date following the date of `z`.
pub proof fn lemma_civil_date_next(z: int)
    ensures
        civil_date(z + 1) == next_date(civil_date(z).0, civil_date(z).1, civil_date(z).2),
{
    lemma_civil_date_exists(z);
    lemma_civil_date_exists(z + 1);
    let (y, m, d) = civil_date(z);
    let (ny, nm, nd) = next_date(y, m, d);
    lemma_year_length(y);
    assert(is_valid_date(ny, nm, nd));
    assert(days_from_civil(ny, nm, nd) == z + 1);
    lemma_days_from_civil_injective(ny, nm, nd, civil_date(z + 1).0, civil_date(z + 1).1, civil_date(z + 1).2);
}


/// The Gregorian rules the day counts follow: a year is a leap year when
/// divisible by 4, except centuries not divisible by 400; February has 29
/// days in a leap year and 28 otherwise; April, June, September and
/// November have 30 days, the other months 31.
pub proof fn lemma_calendar_rules(y: int, m: int)
    ensures
        is_leap_year(y) <==> (y % 4 == 0 && (y % 100 != 0 || y % 400 == 0)),
        m == 2 ==> days_in_month(y, m) == (if y % 4 == 0 && (y % 100 != 0 || y % 400 == 0) { 29int } else { 28int }),
        (m == 4 || m == 6 || m == 9 || m == 11) ==> days_in_month(y, m) == 30,
        (m == 1 || m == 3 || m == 5 || m == 7 || m == 8 || m == 10 || m == 12) ==> days_in_month(y, m) == 31,
{
}

/// Day counts advance by one from each date to the next: 1970-01-01 is
/// day 0, the next day in a month is one more, the first of the next month
/// follows the last day of a month, and January 1st follows December 31st.
pub proof fn lemma_day_counts_step(y: int, m: int, d: int)
    ensures
        days_from_civil(1970, 1, 1) == 0,
        1 <= m <= 12 && 1 <= d < days_in_month(y, m) ==> days_from_civil(y, m, d + 1) == days_from_civil(y, m, d) + 1,
        1 <= m < 12 ==> days_from_civil(y, m + 1, 1) == days_from_civil(y, m, days_in_month(y, m)) + 1,
        days_from_civil(y + 1, 1, 1) == days_from_civil(y, 12, 31) + 1,
{
    lemma_year_length(y);
    assert(leaps_through(1969) == 477);
}

/// A timestamp splits into its day number, hour, minute and second:
/// `secs == day * 86400 + hour * 3600 + minute * 60 + secs % 60` with the
/// hour below 24 and the minute below 60.
pub proof fn lemma_timestamp_fields(secs: u64)
    ensures
        secs as int == timestamp_day(secs) * 86400 + timestamp_hour(secs) * 3600
            + timestamp_minute(secs) * 60 + secs as int % 60,
        0 <= timestamp_hour(secs) < 24,
        0 <= timestamp_minute(secs) < 60,
        timestamp_day(secs) >= 0,
{
    let x = secs as int;
    vstd::arithmetic::div_mod::lemma_fundamental_div_mod(x, 86400);
    vstd::arithmetic::div_mod::lemma_fundamental_div_mod(x % 86400, 3600);
    vstd::arithmetic::div_mod::lemma_fundamental_div_mod(x % 3600, 60);
    vstd::arithmetic::div_mod::lemma_mod_mod(x, 3600, 24);
    vstd::arithmetic::div_mod::lemma_mod_mod(x, 60, 60);
    assert(3600int * 24 == 86400);
    assert(60int * 60 == 3600);
}

/// The text of a timestamp: day and month as two digits, the year as at
/// least four, hour and minute as two, in the form `DD.MM.YYYY HH:MM`.
pub proof fn lemma_timestamp_text_layout(secs: u64)
    ensures
        ({
            let (y, m, d) = civil_date(timestamp_day(secs));
            timestamp_text(secs) == padded_decimal(d, 2) + seq!['.'] + padded_decimal(m, 2) + seq!['.']
                + padded_decimal(y, 4) + seq![' '] + padded_decimal(timestamp_hour(secs), 2) + seq![':']
                + padded_decimal(timestamp_minute(secs), 2)
        }),
{
}

} // verus!
