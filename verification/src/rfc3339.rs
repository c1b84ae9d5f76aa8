//! Calendar dates of Unix times, and their RFC 3339 text.

use vstd::prelude::*;
use crate::text::{decimal_padded, push_char, push_decimal_padded};

verus! {

/// A leap year of the proleptic Gregorian calendar.
pub open spec fn is_leap(y: int) -> bool {
    y % 4 == 0 && (y % 100 != 0 || y % 400 == 0)
}

/// Days in month `m` (1 to 12) of year `y`.
pub open spec fn days_in_month(y: int, m: int) -> int {
    if m == 2 {
        if is_leap(y) {
            29
        } else {
            28
        }
    } else if m == 4 || m == 6 || m == 9 || m == 11 {
        30
    } else {
        31
    }
}

/// Days of year `y` before the first of month `m`.
pub open spec fn days_before_month(y: int, m: int) -> int {
    let base: int = if m == 1 {
        0
    } else if m == 2 {
        31
    } else if m == 3 {
        59
    } else if m == 4 {
        90
    } else if m == 5 {
        120
    } else if m == 6 {
        151
    } else if m == 7 {
        181
    } else if m == 8 {
        212
    } else if m == 9 {
        243
    } else if m == 10 {
        273
    } else if m == 11 {
        304
    } else {
        334
    };
    if m > 2 && is_leap(y) {
        base + 1
    } else {
        base
    }
}

/// A real date: month 1 to 12, day within the month.
pub open spec fn valid_date(y: int, m: int, d: int) -> bool {
    1 <= m <= 12 && 1 <= d <= days_in_month(y, m)
}

/// Days from 1970-01-01 to `y-m-d`: 365 a year, one more for each leap year
/// before `y`, and the days of `y` before the date.
pub open spec fn days_from_civil(y: int, m: int, d: int) -> int {
    let p = y - 1;
    365 * p + p / 4 - p / 100 + p / 400 + days_before_month(y, m) + d - 1 - 719162
}

/// Largest distance in days from 1970-01-01 whose year still fits an `i32`.
pub const MAX_CIVIL_DAYS: i64 = 700000000000;

/// First day (counted from the start of a 400-year era that begins on
/// 1 March) of the era's year `n`.
pub open spec fn era_year_start(n: int) -> int {
    365 * n + n / 4 - n / 100 + n / 400
}

#[verifier::rlimit(100)]
proof fn lemma_year_of_era(doe: int)
    requires
        0 <= doe <= 146096,
    ensures
        ({
            let yoe = (doe - doe / 1460 + doe / 36524 - doe / 146096) / 365;
            &&& 0 <= yoe <= 399
            &&& era_year_start(yoe) <= doe < era_year_start(yoe + 1)
        }),
{
    let c = doe / 36524;
    let r = doe % 36524;
    if doe == 146096 {
    } else {
        assert(0 <= c <= 3);
        let q = r / 1461;
        let s = r % 1461;
        assert(doe == 36524 * c + 1461 * q + s);
        assert(0 <= q <= 24);
    }
}

proof fn lemma_month_of_year(doy: int)
    requires
        0 <= doy <= 365,
    ensures
        ({
            let mp = (5 * doy + 2) / 153;
            &&& 0 <= mp <= 11
            &&& (153 * mp + 2) / 5 <= doy < (153 * (mp + 1) + 2) / 5
        }),
{
}

proof fn lemma_shift_div_mod(era: int, k: int, d: int)
    requires
        0 <= k,
        d == 4 || d == 100 || d == 400,
    ensures
        (400 * era + k) / d == (400int / d) * era + k / d,
        (400 * era + k) % d == k % d,
{
    let q = (400int / d) * era + k / d;
    assert(q * d == 400 * era + (k / d) * d) by (nonlinear_arith)
        requires
            q == (400int / d) * era + k / d,
            d == 4 || d == 100 || d == 400,
    ;
    vstd::arithmetic::div_mod::lemma_fundamental_div_mod(k, d);
    vstd::arithmetic::div_mod::lemma_fundamental_div_mod_converse(400 * era + k, d, q, k % d);
}

proof fn lemma_era_shift(era: int, yoe: int)
    requires
        0 <= yoe <= 399,
    ensures
        era_year_start(400 * era + yoe) == 146097 * era + era_year_start(yoe),
        is_leap(400 * era + yoe + 1) == is_leap(yoe + 1),
{
    lemma_shift_div_mod(era, yoe, 4);
    lemma_shift_div_mod(era, yoe, 100);
    lemma_shift_div_mod(era, yoe, 400);
    lemma_shift_div_mod(era, yoe + 1, 4);
    lemma_shift_div_mod(era, yoe + 1, 100);
    lemma_shift_div_mod(era, yoe + 1, 400);
}

proof fn lemma_year_length(n: int)
    ensures
        era_year_start(n + 1) - era_year_start(n) == era_year_len(n),
        era_year_start(n + 1) - (365 * n + n / 4 - n / 100 + n / 400) == era_year_len(n),
{
    assert((n + 1) / 4 - n / 4 == (if (n + 1) % 4 == 0 { 1int } else { 0int }));
    assert((n + 1) / 100 - n / 100 == (if (n + 1) % 100 == 0 { 1int } else { 0int }));
    assert((n + 1) / 400 - n / 400 == (if (n + 1) % 400 == 0 { 1int } else { 0int }));
}

/// Length of the era's year `n` (from 1 March): 366 when it holds the leap
/// day of the following calendar year.
pub open spec fn era_year_len(n: int) -> int {
    365 + if is_leap(n + 1) {
        1int
    } else {
        0int
    }
}

/// Days from 1 March to the first day of the `mp`-th month after March.
pub open spec fn march_month_start(mp: int) -> int {
    (153 * mp + 2) / 5
}

/// The calendar date of day `doy` (from 0) of the era's year `yoe`, which
/// starts on 1 March: its month, day and distance from 1970-01-01.
proof fn lemma_civil_date(era: int, yoe: int, doy: int)
    requires
        0 <= yoe <= 399,
        0 <= doy < era_year_len(yoe),
    ensures
        ({
            let yy = 400 * era + yoe;
            let mp = (5 * doy + 2) / 153;
            let d = doy - march_month_start(mp) + 1;
            let m = if mp < 10 {
                mp + 3
            } else {
                mp - 9
            };
            let y = if m <= 2 {
                yy + 1
            } else {
                yy
            };
            &&& 0 <= mp <= 11
            &&& valid_date(y, m, d)
            &&& days_from_civil(y, m, d) == 146097 * era + era_year_start(yoe) + doy - 719468
        }),
{
    lemma_month_of_year(doy);
    lemma_era_shift(era, yoe);
    let yy = 400 * era + yoe;
    lemma_year_length(yy);
    lemma_year_length(yy - 1);
    let mp = (5 * doy + 2) / 153;
    assert(march_month_start(mp) <= doy < march_month_start(mp + 1));
}

fn split_era(z: i64) -> (r: (i64, u32))
    requires
        -800000000000 <= z <= 800000000000,
    ensures
        z == r.0 * 146097 + r.1,
        r.1 <= 146096,
        -6000000 <= r.0 <= 6000000,
{
    let era: i64 = if z >= 0 {
        z / 146097
    } else {
        -((146096 - z) / 146097)
    };
    let doe: u32 = (z - era * 146097) as u32;
    (era, doe)
}

fn split_year(doe: u32) -> (r: (u32, u32))
    requires
        doe <= 146096,
    ensures
        r.0 <= 399,
        doe == era_year_start(r.0 as int) + r.1,
        r.1 < era_year_len(r.0 as int),
{
    let yoe: u32 = (doe - doe / 1460 + doe / 36524 - doe / 146096) / 365;
    proof {
        lemma_year_of_era(doe as int);
        lemma_year_length(yoe as int);
    }
    let doy: u32 = doe - (365 * yoe + yoe / 4 - yoe / 100);
    (yoe, doy)
}

/// The civil date (year, month, day) `days` days after 1970-01-01.
pub fn civil_from_days(days: i64) -> (r: (i32, u32, u32))
    requires
        -MAX_CIVIL_DAYS <= days <= MAX_CIVIL_DAYS,
    ensures
        valid_date(r.0 as int, r.1 as int, r.2 as int),
        days_from_civil(r.0 as int, r.1 as int, r.2 as int) == days,
{
    let z: i64 = days + 719468;
    let (era, doe) = split_era(z);
    let (yoe, doy) = split_year(doe);
    proof {
        lemma_civil_date(era as int, yoe as int, doy as int);
    }
    let y0: i64 = (yoe as i64) + era * 400;
    let mp: u32 = (5 * doy + 2) / 153;
    let d: u32 = doy - (153 * mp + 2) / 5 + 1;
    let m: u32 = if mp < 10 {
        mp + 3
    } else {
        mp - 9
    };
    let y: i64 = if m <= 2 {
        y0 + 1
    } else {
        y0
    };
    (y as i32, m, d)
}

/// The date `days` days after 1970-01-01 (there is exactly one, see
/// `lemma_date_unique`).
pub open spec fn civil_of(days: int) -> (int, int, int) {
    choose|t: (int, int, int)| valid_date(t.0, t.1, t.2) && days_from_civil(t.0, t.1, t.2) == days
}

proof fn lemma_year_start_increasing(y1: int, y2: int)
    requires
        y1 < y2,
    ensures
        days_from_civil(y1, 1, 1) + 365 <= days_from_civil(y2, 1, 1),
{
    let p1 = y1 - 1;
    let p2 = y2 - 1;
    assert(p2 / 4 >= p1 / 4);
    assert(p2 / 100 - p1 / 100 <= (p2 - p1) / 100 + 1);
    assert(p2 / 400 >= p1 / 400);
}

proof fn lemma_date_in_year(y: int, m: int, d: int)
    requires
        valid_date(y, m, d),
    ensures
        days_from_civil(y, 1, 1) <= days_from_civil(y, m, d) < days_from_civil(y + 1, 1, 1),
{
    lemma_year_length(y - 1);
}

/// Distinct dates fall on distinct days.
pub proof fn lemma_date_unique(y1: int, m1: int, d1: int, y2: int, m2: int, d2: int)
    requires
        valid_date(y1, m1, d1),
        valid_date(y2, m2, d2),
        days_from_civil(y1, m1, d1) == days_from_civil(y2, m2, d2),
    ensures
        y1 == y2 && m1 == m2 && d1 == d2,
{
    lemma_date_in_year(y1, m1, d1);
    lemma_date_in_year(y2, m2, d2);
    if y1 < y2 {
        lemma_year_start_increasing(y1 + 1, y2 + 1);
        if y1 + 1 < y2 {
            lemma_year_start_increasing(y1 + 1, y2);
        }
    } else if y2 < y1 {
        if y2 + 1 < y1 {
            lemma_year_start_increasing(y2 + 1, y1);
        }
    }
    assert(y1 == y2);
}

/// Two digits, zero-padded.
pub open spec fn two(n: int) -> Seq<char> {
    decimal_padded(n as nat, 2)
}

/// A year zero-padded to four characters, the sign counted among them for
/// a year before year 0 (as `{:04}` writes it).
pub open spec fn year_text(y: int) -> Seq<char> {
    if y >= 0 {
        decimal_padded(y as nat, 4)
    } else {
        seq!['-'] + decimal_padded((-y) as nat, 3)
    }
}

/// `YYYY-MM-DD`.
pub open spec fn date_text(y: int, m: int, d: int) -> Seq<char> {
    year_text(y) + seq!['-'] + two(m) + seq!['-'] + two(d)
}

/// `HH:MM:SS` for second `sod` of a day.
pub open spec fn time_text(sod: int) -> Seq<char> {
    two(sod / 3600) + seq![':'] + two((sod % 3600) / 60) + seq![':'] + two(sod % 60)
}

/// `YYYY-MM-DDTHH:MM:SS.mmmZ` for `secs` seconds (before the Unix epoch
/// when negative) and `millis` milliseconds: the day is `secs` divided by
/// 86400 rounded down, the time of day the remainder.
pub open spec fn rfc3339_text(secs: int, millis: nat) -> Seq<char> {
    let (y, m, d) = civil_of(secs / 86400);
    date_text(y, m, d) + seq!['T'] + time_text(secs % 86400) + seq!['.']
        + decimal_padded(millis, 3) + seq!['Z']
}

/// Largest distance in seconds from the Unix epoch, either way, whose date
/// `epoch_secs_to_rfc3339` renders.
pub const MAX_RFC3339_SECS: i64 = 60480000000000000;

proof fn lemma_civil_of(days: int, y: int, m: int, d: int)
    requires
        valid_date(y, m, d),
        days_from_civil(y, m, d) == days,
    ensures
        civil_of(days) == (y, m, d),
{
    let w = (y, m, d);
    assert(valid_date(w.0, w.1, w.2) && days_from_civil(w.0, w.1, w.2) == days);
    let c = civil_of(days);
    assert(valid_date(c.0, c.1, c.2) && days_from_civil(c.0, c.1, c.2) == days);
    lemma_date_unique(y, m, d, c.0, c.1, c.2);
}

/// The day and the second of the day of a Unix time, rounding down.
fn split_day(secs: i64) -> (r: (i64, i64))
    requires
        -MAX_RFC3339_SECS <= secs <= MAX_RFC3339_SECS,
    ensures
        r.0 == secs / 86400,
        r.1 == secs % 86400,
        -MAX_CIVIL_DAYS <= r.0 <= MAX_CIVIL_DAYS,
{
    if secs >= 0 {
        (secs / 86400, secs % 86400)
    } else {
        let n: i64 = -(secs + 1);
        let q: i64 = n / 86400;
        let days: i64 = -q - 1;
        let sod: i64 = secs + (q + 1) * 86400;
        proof {
            vstd::arithmetic::div_mod::lemma_fundamental_div_mod(n as int, 86400);
            vstd::arithmetic::div_mod::lemma_fundamental_div_mod_converse(
                secs as int,
                86400,
                days as int,
                sod as int,
            );
        }
        (days, sod)
    }
}

fn push_date_time(out: &mut String, secs: i64, millis: u32)
    requires
        -MAX_RFC3339_SECS <= secs <= MAX_RFC3339_SECS,
    ensures
        final(out)@ == old(out)@ + rfc3339_text(secs as int, millis as nat),
{
    let (days, sod) = split_day(secs);
    let (y, mo, d) = civil_from_days(days);
    proof {
        lemma_civil_of(days as int, y as int, mo as int, d as int);
    }
    let ghost start = out@;
    push_date(out, y, mo as u64, d as u64);
    push_char(out, 'T');
    push_time(out, sod as u64);
    push_char(out, '.');
    push_decimal_padded(out, millis as u64, 3);
    push_char(out, 'Z');
    assert(out@ =~= start + rfc3339_text(secs as int, millis as nat));
}

fn push_date(out: &mut String, y: i32, m: u64, d: u64)
    ensures
        final(out)@ == old(out)@ + date_text(y as int, m as int, d as int),
{
    let ghost start = out@;
    if y >= 0 {
        push_decimal_padded(out, y as u64, 4);
    } else {
        push_char(out, '-');
        let a: i64 = -(y as i64);
        push_decimal_padded(out, a as u64, 3);
    }
    push_char(out, '-');
    push_decimal_padded(out, m, 2);
    push_char(out, '-');
    push_decimal_padded(out, d, 2);
    assert(out@ =~= start + date_text(y as int, m as int, d as int));
}

fn push_time(out: &mut String, sod: u64)
    ensures
        final(out)@ == old(out)@ + time_text(sod as int),
{
    let ghost start = out@;
    push_decimal_padded(out, sod / 3600, 2);
    push_char(out, ':');
    push_decimal_padded(out, (sod % 3600) / 60, 2);
    push_char(out, ':');
    push_decimal_padded(out, sod % 60, 2);
    assert(out@ =~= start + time_text(sod as int));
}

/// `secs` from the Unix epoch (before it when negative) as
/// `YYYY-MM-DDTHH:MM:SS.000Z`.
pub fn epoch_secs_to_rfc3339(secs: i64) -> (r: String)
    requires
        -MAX_RFC3339_SECS <= secs <= MAX_RFC3339_SECS,
    ensures
        r@ == rfc3339_text(secs as int, 0),
{
    let mut out = String::new();
    push_date_time(&mut out, secs, 0);
    assert(out@ =~= rfc3339_text(secs as int, 0));
    out
}

/// `secs` from the Unix epoch (before it when negative) and `millis`
/// milliseconds as `YYYY-MM-DDTHH:MM:SS.mmmZ`.
pub fn epoch_millis_to_rfc3339(secs: i64, millis: u32) -> (r: String)
    requires
        -MAX_RFC3339_SECS <= secs <= MAX_RFC3339_SECS,
    ensures
        r@ == rfc3339_text(secs as int, millis as nat),
{
    let mut out = String::new();
    push_date_time(&mut out, secs, millis);
    assert(out@ =~= rfc3339_text(secs as int, millis as nat));
    out
}

/// A wall-clock time in milliseconds since the Unix epoch, as RFC 3339 text
/// with millisecond precision.
pub fn rfc3339_from_millis(ms: u64) -> (r: String)
    ensures
        r@ == rfc3339_text((ms / 1000) as int, (ms % 1000) as nat),
{
    epoch_millis_to_rfc3339((ms / 1000) as i64, (ms % 1000) as u32)
}

/// Lifetime of a session token.
pub const SESSION_LIFETIME_SECS: u64 = 2592000;

/// When a session paired at `paired_at` (ms since the epoch) expires: thirty
/// days later, to the second, as RFC 3339 text.
pub fn format_expires_at(paired_at: u64) -> (r: String)
    ensures
        r@ == rfc3339_text((paired_at / 1000 + SESSION_LIFETIME_SECS) as int, 0),
{
    epoch_secs_to_rfc3339((paired_at / 1000 + SESSION_LIFETIME_SECS) as i64)
}

} // verus!
