//! The proleptic Gregorian calendar, counted in days from 1970-01-01, and the
//! conversion of a day count back to a calendar date.
use vstd::prelude::*;
use vstd::arithmetic::div_mod::lemma_fundamental_div_mod_converse;

verus! {

/// A year is a leap year when it is divisible by 4, except century years
/// that are not divisible by 400.
pub open spec fn is_leap_year(y: int) -> bool {
    (y % 4 == 0 && y % 100 != 0) || y % 400 == 0
}

pub open spec fn leap_int(y: int) -> int {
    if is_leap_year(y) {
        1
    } else {
        0
    }
}

/// Number of days in month `m` (1 = January) of year `y`.
pub open spec fn days_in_month(y: int, m: int) -> int {
    if m == 2 {
        28 + leap_int(y)
    } else if m == 4 || m == 6 || m == 9 || m == 11 {
        30
    } else {
        31
    }
}

/// Number of days of year `y` that precede the first day of month `m`.
pub open spec fn days_before_month(y: int, m: int) -> int {
    if m <= 1 {
        0
    } else if m == 2 {
        31
    } else if m == 3 {
        59 + leap_int(y)
    } else if m == 4 {
        90 + leap_int(y)
    } else if m == 5 {
        120 + leap_int(y)
    } else if m == 6 {
        151 + leap_int(y)
    } else if m == 7 {
        181 + leap_int(y)
    } else if m == 8 {
        212 + leap_int(y)
    } else if m == 9 {
        243 + leap_int(y)
    } else if m == 10 {
        273 + leap_int(y)
    } else if m == 11 {
        304 + leap_int(y)
    } else {
        334 + leap_int(y)
    }
}

/// A counting function for leap years: the number of leap years in
/// `[a, b)` is `leaps_before(b) - leaps_before(a)`.
pub open spec fn leaps_before(y: int) -> int {
    (y - 1) / 4 - (y - 1) / 100 + (y - 1) / 400
}

/// `(y, m, d)` is a date of the calendar.
pub open spec fn is_valid_date(y: int, m: int, d: int) -> bool {
    1 <= m <= 12 && 1 <= d <= days_in_month(y, m)
}

/// Days from 1970-01-01 to the date `(y, m, d)`.
pub open spec fn days_from_civil(y: int, m: int, d: int) -> int {
    365 * (y - 1970) + (leaps_before(y) - leaps_before(1970)) + days_before_month(y, m) + (d - 1)
}

/// The calendar date that lies `days` days after 1970-01-01.
pub open spec fn civil_date(days: int) -> (int, int, int) {
    choose|t: (int, int, int)| is_valid_date(t.0, t.1, t.2) && days_from_civil(t.0, t.1, t.2) == days
}

proof fn lemma_div_step(y: int, k: int)
    requires
        k > 0,
    ensures
        y / k - (y - 1) / k == (if y % k == 0 { 1int } else { 0int }),
{
    let q = y / k;
    let r = y % k;
    vstd::arithmetic::div_mod::lemma_fundamental_div_mod(y, k);
    assert(0 <= r < k);
    if r == 0 {
        assert(y - 1 == (q - 1) * k + (k - 1)) by (nonlinear_arith)
            requires
                y == k * q + r,
                r == 0,
        ;
        lemma_fundamental_div_mod_converse(y - 1, k, q - 1, k - 1);
    } else {
        assert(y - 1 == q * k + (r - 1)) by (nonlinear_arith)
            requires
                y == k * q + r,
        ;
        lemma_fundamental_div_mod_converse(y - 1, k, q, r - 1);
    }
}

/// The leap-year counting function grows by one exactly across a leap year.
proof fn lemma_leaps_step(y: int)
    ensures
        leaps_before(y + 1) == leaps_before(y) + leap_int(y),
{
    lemma_div_step(y, 4);
    lemma_div_step(y, 100);
    lemma_div_step(y, 400);
    // a multiple of 100 or 400 is a multiple of 4
    if y % 100 == 0 {
        vstd::arithmetic::div_mod::lemma_fundamental_div_mod(y, 100);
        lemma_fundamental_div_mod_converse(y, 4, 25 * (y / 100), 0);
    }
    if y % 400 == 0 {
        vstd::arithmetic::div_mod::lemma_fundamental_div_mod(y, 400);
        lemma_fundamental_div_mod_converse(y, 100, 4 * (y / 400), 0);
        lemma_fundamental_div_mod_converse(y, 4, 100 * (y / 400), 0);
    }
}

proof fn lemma_year_start_step(y: int)
    ensures
        days_from_civil(y + 1, 1, 1) == days_from_civil(y, 1, 1) + 365 + leap_int(y),
{
    lemma_leaps_step(y);
}

proof fn lemma_year_start_mono(y1: int, y2: int)
    requires
        y1 < y2,
    ensures
        days_from_civil(y1 + 1, 1, 1) <= days_from_civil(y2, 1, 1),
    decreases y2 - y1,
{
    if y1 + 1 < y2 {
        lemma_year_start_mono(y1, y2 - 1);
        lemma_year_start_step(y2 - 1);
    }
}

proof fn lemma_date_within_year(y: int, m: int, d: int)
    requires
        is_valid_date(y, m, d),
    ensures
        days_from_civil(y, 1, 1) <= days_from_civil(y, m, d) < days_from_civil(y + 1, 1, 1),
{
    lemma_year_start_step(y);
}

/// Two calendar dates that fall on the same day are the same date.
pub proof fn lemma_civil_unique(y1: int, m1: int, d1: int, y2: int, m2: int, d2: int)
    requires
        is_valid_date(y1, m1, d1),
        is_valid_date(y2, m2, d2),
        days_from_civil(y1, m1, d1) == days_from_civil(y2, m2, d2),
    ensures
        y1 == y2 && m1 == m2 && d1 == d2,
{
    lemma_date_within_year(y1, m1, d1);
    lemma_date_within_year(y2, m2, d2);
    if y1 < y2 {
        lemma_year_start_mono(y1, y2);
    } else if y2 < y1 {
        lemma_year_start_mono(y2, y1);
    }
    assert(y1 == y2);
}

/// Splitting a day count of the 400-year cycle that starts on a 1st of March.
proof fn lemma_march_year_days(q: int, c: int, b: int, a: int)
    requires
        0 <= c <= 3,
        0 <= b <= 24,
        0 <= a <= 3,
    ensures
        ({
            let ym = 400 * q + 100 * c + 4 * b + a;
            365 * ym + leaps_before(ym + 1) == 146097 * q + 36524 * c + 1461 * b + 365 * a
        }),
{
    let ym = 400 * q + 100 * c + 4 * b + a;
    lemma_fundamental_div_mod_converse(ym, 4, 100 * q + 25 * c + b, a);
    lemma_fundamental_div_mod_converse(ym, 100, 4 * q + c, 4 * b + a);
    lemma_fundamental_div_mod_converse(ym, 400, q, 100 * c + 4 * b + a);
}

/// The first day of month `mp` (0 = March) in a year counted from the 1st of
/// March (day 0).
pub open spec fn march_month_start(mp: int) -> int {
    if mp == 0 {
        0
    } else if mp == 1 {
        31
    } else if mp == 2 {
        61
    } else if mp == 3 {
        92
    } else if mp == 4 {
        122
    } else if mp == 5 {
        153
    } else if mp == 6 {
        184
    } else if mp == 7 {
        214
    } else if mp == 8 {
        245
    } else if mp == 9 {
        275
    } else if mp == 10 {
        306
    } else {
        337
    }
}

proof fn lemma_civil_from_parts(days: int, q: int, c: int, b: int, a: int, doy: int, mp: int)
    requires
        0 <= c <= 3,
        0 <= b <= 24,
        0 <= a <= 3,
        0 <= doy <= 365,
        doy == 365 ==> a == 3,
        doy == 365 && b == 24 ==> c == 3,
        days + 719468 == 146097 * q + 36524 * c + 1461 * b + 365 * a + doy,
        0 <= mp <= 11,
        march_month_start(mp) <= doy,
        mp < 11 ==> doy < march_month_start(mp + 1),
    ensures
        ({
            let ym = 400 * q + 100 * c + 4 * b + a;
            let d = doy - march_month_start(mp) + 1;
            let y = if mp < 10 { ym } else { ym + 1 };
            let m = if mp < 10 { mp + 3 } else { mp - 9 };
            is_valid_date(y, m, d) && days_from_civil(y, m, d) == days
        }),
{
    let ym = 400 * q + 100 * c + 4 * b + a;
    lemma_march_year_days(q, c, b, a);
    lemma_leaps_step(ym);
    if doy == 365 {
        if b == 24 {
            assert(ym + 1 == 400 * (q + 1));
            lemma_fundamental_div_mod_converse(ym + 1, 400, q + 1, 0);
            lemma_fundamental_div_mod_converse(ym + 1, 4, 100 * (q + 1), 0);
        } else {
            assert(ym + 1 == 4 * (100 * q + 25 * c + b + 1));
            lemma_fundamental_div_mod_converse(ym + 1, 4, 100 * q + 25 * c + b + 1, 0);
            lemma_fundamental_div_mod_converse(ym + 1, 100, 4 * q + c, 4 * (b + 1));
        }
        assert(is_leap_year(ym + 1));
    }
}

fn march_month_of(doy: u64) -> (mp: u64)
    requires
        doy <= 365,
    ensures
        mp <= 11,
        march_month_start(mp as int) <= doy,
        mp < 11 ==> doy < march_month_start(mp + 1),
{
    if doy < 31 {
        0
    } else if doy < 61 {
        1
    } else if doy < 92 {
        2
    } else if doy < 122 {
        3
    } else if doy < 153 {
        4
    } else if doy < 184 {
        5
    } else if doy < 214 {
        6
    } else if doy < 245 {
        7
    } else if doy < 275 {
        8
    } else if doy < 306 {
        9
    } else if doy < 337 {
        10
    } else {
        11
    }
}

/// Converts a count of days since 1970-01-01 into the calendar date
/// `(year, month, day)`.
pub fn civil_from_days(days: u64) -> (r: (u64, u64, u64))
    requires
        days <= u64::MAX / 86400,
    ensures
        is_valid_date(r.0 as int, r.1 as int, r.2 as int),
        days_from_civil(r.0 as int, r.1 as int, r.2 as int) == days,
        r == (civil_date(days as int).0 as u64, civil_date(days as int).1 as u64, civil_date(days as int).2 as u64),
        civil_date(days as int) == (r.0 as int, r.1 as int, r.2 as int),
{
    // days since 0000-03-01
    let z = days + 719468;
    let q = z / 146097;
    let r = z % 146097;
    let mut c = r / 36524;
    if c > 3 {
        c = 3;
    }
    let r2 = r - 36524 * c;
    let b = r2 / 1461;
    let r3 = r2 % 1461;
    let mut a = r3 / 365;
    if a > 3 {
        a = 3;
    }
    let doy = r3 - 365 * a;
    let ym = 400 * q + 100 * c + 4 * b + a;
    let mp = march_month_of(doy);
    let d = doy - march_month_start_exec(mp) + 1;
    let (y, m) = if mp < 10 {
        (ym, mp + 3)
    } else {
        (ym + 1, mp - 9)
    };
    proof {
        assert(r2 <= 36524);
        assert(b <= 24);
        assert(r3 <= 1460);
        assert(z == 146097 * q + r);
        assert(r == 36524 * c + r2);
        assert(r2 == 1461 * b + r3);
        assert(doy == 365 ==> a == 3 && r3 == 1460);
        assert(doy == 365 && b == 24 ==> r2 == 36524 && c == 3);
        lemma_civil_from_parts(days as int, q as int, c as int, b as int, a as int, doy as int, mp as int);
        let w: (int, int, int) = (y as int, m as int, d as int);
        assert(is_valid_date(w.0, w.1, w.2) && days_from_civil(w.0, w.1, w.2) == days);
        let t = civil_date(days as int);
        lemma_civil_unique(t.0, t.1, t.2, y as int, m as int, d as int);
    }
    (y, m, d)
}

fn march_month_start_exec(mp: u64) -> (s: u64)
    requires
        mp <= 11,
    ensures
        s == march_month_start(mp as int),
{
    if mp == 0 {
        0
    } else if mp == 1 {
        31
    } else if mp == 2 {
        61
    } else if mp == 3 {
        92
    } else if mp == 4 {
        122
    } else if mp == 5 {
        153
    } else if mp == 6 {
        184
    } else if mp == 7 {
        214
    } else if mp == 8 {
        245
    } else if mp == 9 {
        275
    } else if mp == 10 {
        306
    } else {
        337
    }
}

} // verus!
