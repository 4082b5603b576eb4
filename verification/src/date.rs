//! Gregorian calendar arithmetic: leap years, month lengths, weekdays and the
//! conversion from a day count since 1970-01-01.

use vstd::prelude::*;

verus! {

/// Leap year of the Gregorian calendar.
pub open spec fn leap(y: int) -> bool {
    (y % 4 == 0 && y % 100 != 0) || y % 400 == 0
}

/// Number of days of a year.
pub open spec fn year_len(y: int) -> int {
    if leap(y) {
        366
    } else {
        365
    }
}

/// Number of days of month `m` of year `y` (30 for a number that is no month).
pub open spec fn month_days(y: int, m: int) -> int {
    if m == 1 {
        31
    } else if m == 2 {
        if leap(y) {
            29
        } else {
            28
        }
    } else if m == 3 {
        31
    } else if m == 4 {
        30
    } else if m == 5 {
        31
    } else if m == 6 {
        30
    } else if m == 7 {
        31
    } else if m == 8 {
        31
    } else if m == 9 {
        30
    } else if m == 10 {
        31
    } else if m == 11 {
        30
    } else if m == 12 {
        31
    } else {
        30
    }
}

/// A real calendar date.
pub open spec fn valid_date(y: int, m: int, d: int) -> bool {
    1 <= m <= 12 && 1 <= d <= month_days(y, m)
}

/// Days of year `y` before the first of month `m` (for `1 <= m <= 13`).
pub open spec fn days_before_month(y: int, m: int) -> int
    decreases m,
{
    if m <= 1 {
        0
    } else {
        days_before_month(y, m - 1) + month_days(y, m - 1)
    }
}

/// Days from the first of January of year 0 to the first of January of year `y`.
pub open spec fn days_before_year(y: nat) -> int
    decreases y,
{
    if y == 0 {
        0
    } else {
        days_before_year((y - 1) as nat) + year_len(y - 1)
    }
}

/// The number of a day counted from 0000-01-01, which has number 0.
pub open spec fn ordinal(y: nat, m: int, d: int) -> int {
    days_before_year(y) + days_before_month(y as int, m) + d - 1
}

/// Truncating division (as Rust's `/` on signed integers), for `b > 0`.
pub open spec fn tdiv(a: int, b: int) -> int {
    if a >= 0 {
        a / b
    } else {
        -((-a) / b)
    }
}

/// Remainder of the truncating division (as Rust's `%` on signed integers).
pub open spec fn trem(a: int, b: int) -> int {
    a - b * tdiv(a, b)
}

/// The year and month that Zeller's congruence works with: January and
/// February count as months 13 and 14 of the year before. The inputs are
/// taken as `i32`, as the computation does.
pub open spec fn zeller_year(year: u32, month: u32) -> int {
    if (month as i32) < 3 {
        (year as i32) - 1
    } else {
        (year as i32) as int
    }
}

pub open spec fn zeller_month(month: u32) -> int {
    if (month as i32) < 3 {
        (month as i32) + 12
    } else {
        (month as i32) as int
    }
}

/// The sum of Zeller's congruence before it is reduced modulo 7.
pub open spec fn zeller_sum(y: int, m: int) -> int {
    let k = trem(y, 100);
    let j = tdiv(y, 100);
    1 + tdiv(13 * (m + 1), 5) + k + tdiv(k, 4) + tdiv(j, 4) - 2 * j
}

/// Day of the week (0 = Sunday) of the first day of a month, by Zeller's
/// congruence as computed on `i32`.
pub open spec fn first_weekday(year: u32, month: u32) -> int {
    let h = trem(zeller_sum(zeller_year(year, month), zeller_month(month)), 7);
    trem(h + 6, 7)
}

/// Every intermediate value of the congruence fits in an `i32`.
pub open spec fn zeller_fits(year: u32, month: u32) -> bool {
    let y = zeller_year(year, month);
    let m = zeller_month(month);
    let k = trem(y, 100);
    let j = tdiv(y, 100);
    &&& i32::MIN <= y <= i32::MAX
    &&& i32::MIN <= m <= i32::MAX
    &&& i32::MIN <= m + 1 <= i32::MAX
    &&& i32::MIN <= 13 * (m + 1) <= i32::MAX
    &&& i32::MIN <= 2 * j <= i32::MAX
    &&& i32::MIN <= 1 + tdiv(13 * (m + 1), 5) <= i32::MAX
    &&& i32::MIN <= 1 + tdiv(13 * (m + 1), 5) + k <= i32::MAX
    &&& i32::MIN <= 1 + tdiv(13 * (m + 1), 5) + k + tdiv(k, 4) <= i32::MAX
    &&& i32::MIN <= 1 + tdiv(13 * (m + 1), 5) + k + tdiv(k, 4) + tdiv(j, 4) <= i32::MAX
    &&& i32::MIN <= zeller_sum(y, m) <= i32::MAX
}

pub fn is_leap_year(year: u32) -> (r: bool)
    ensures
        r == leap(year as int),
{
    (year % 4 == 0 && year % 100 != 0) || (year % 400 == 0)
}

pub fn days_in_month(year: u32, month: u32) -> (r: u32)
    ensures
        r == month_days(year as int, month as int),
        28 <= r <= 31,
{
    match month {
        1 => 31,
        2 => {
            if is_leap_year(year) {
                29
            } else {
                28
            }
        },
        3 => 31,
        4 => 30,
        5 => 31,
        6 => 30,
        7 => 31,
        8 => 31,
        9 => 30,
        10 => 31,
        11 => 30,
        12 => 31,
        _ => 30,
    }
}

/// Get the day of week (0=Sunday) for the first day of the month.
pub fn first_day_of_month(year: u32, month: u32) -> (r: u32)
    requires
        zeller_fits(year, month),
    ensures
        r == first_weekday(year, month),
        r < 7,
{
    let mut y: i32 = year as i32;
    let mut m: i32 = month as i32;
    if m < 3 {
        m = m + 12;
        y = y - 1;
    }
    let k = y % 100;
    let j = y / 100;
    assert(k == trem(y as int, 100) && j == tdiv(y as int, 100));
    let a = (13 * (m + 1)) / 5;
    assert(a == tdiv(13 * (m + 1), 5));
    let h = (1 + a + k + k / 4 + j / 4 - 2 * j) % 7;
    assert(h == trem(zeller_sum(y as int, m as int), 7));
    assert(-7 < h < 7);
    let r = ((h + 6) % 7) as u32;
    assert(r == trem(h + 6, 7));
    r
}

/// The twelve month lengths add up to the length of the year.
pub proof fn lemma_year_is_twelve_months(y: int)
    ensures
        days_before_month(y, 13) == year_len(y),
{
    reveal_with_fuel(days_before_month, 13);
}

/// The days before a month are fewer than those before any later month.
pub proof fn lemma_days_before_month_mono(y: int, m1: int, m2: int)
    requires
        1 <= m1 <= m2 <= 13,
    ensures
        days_before_month(y, m1) <= days_before_month(y, m2),
        m1 < m2 ==> days_before_month(y, m1) + month_days(y, m1) <= days_before_month(y, m2),
    decreases m2 - m1,
{
    if m1 < m2 {
        lemma_days_before_month_mono(y, m1, m2 - 1);
    }
}

/// Splits a day count since 1970-01-01 into a date; `None` when the year
/// would not fit in a `u32`.
pub fn date_from_days(days: u64) -> (r: Option<(u32, u32, u32)>)
    ensures
        match r {
            Some((y, m, d)) => valid_date(y as int, m as int, d as int) && ordinal(y as nat, m as int, d as int)
                == days_before_year(1970) + days,
            None => days_before_year(1970) + days >= days_before_year(0x1_0000_0000),
        },
{
    let mut year: u32 = 1970;
    let mut remaining: u64 = days;
    loop
        invariant
            year >= 1970,
            days_before_year(year as nat) + remaining == days_before_year(1970) + days,
        ensures
            remaining < year_len(year as int),
            days_before_year(year as nat) + remaining == days_before_year(1970) + days,
        decreases remaining,
    {
        let days_in_year: u64 = if is_leap_year(year) {
            366
        } else {
            365
        };
        if remaining < days_in_year {
            break;
        }
        if year == u32::MAX {
            assert(days_before_year(0x1_0000_0000) == days_before_year(year as nat) + year_len(
                year as int,
            ));
            return None;
        }
        remaining = remaining - days_in_year;
        year = year + 1;
    }
    proof {
        lemma_year_is_twelve_months(year as int);
    }
    let mut month: u32 = 1;
    loop
        invariant
            1 <= month <= 12,
            days_before_month(year as int, month as int) + remaining < year_len(year as int),
            days_before_year(year as nat) + days_before_month(year as int, month as int)
                + remaining == days_before_year(1970) + days,
        ensures
            1 <= month <= 12,
            remaining < month_days(year as int, month as int),
            days_before_year(year as nat) + days_before_month(year as int, month as int)
                + remaining == days_before_year(1970) + days,
        decreases 12 - month,
    {
        let days_in = days_in_month(year, month) as u64;
        if remaining < days_in {
            break;
        }
        proof {
            lemma_year_is_twelve_months(year as int);
            if month == 12 {
                assert(days_before_month(year as int, 13) == days_before_month(year as int, 12)
                    + month_days(year as int, 12));
            }
        }
        remaining = remaining - days_in;
        month = month + 1;
    }
    let day = remaining as u32 + 1;
    Some((year, month, day))
}

/// The month before `(y, m)`, with the year changing across January.
pub open spec fn prev_month_of(y: int, m: int) -> (int, int) {
    if m == 1 {
        (y - 1, 12)
    } else {
        (y, m - 1)
    }
}

/// The month after `(y, m)`, with the year changing across December.
pub open spec fn next_month_of(y: int, m: int) -> (int, int) {
    if m == 12 {
        (y + 1, 1)
    } else {
        (y, m + 1)
    }
}

/// Going a month back and then a month forward returns to the same month,
/// and the other way round.
pub proof fn law_month_steps_invert(y: int, m: int)
    requires
        1 <= m <= 12,
    ensures
        next_month_of(prev_month_of(y, m).0, prev_month_of(y, m).1) == (y, m),
        prev_month_of(next_month_of(y, m).0, next_month_of(y, m).1) == (y, m),
{
}

/// The first day of the next month is the day after the last day of this one.
pub proof fn lemma_ordinal_next_month(y: nat, m: int)
    requires
        1 <= m <= 12,
    ensures
        ({
            let (ny, nm) = next_month_of(y as int, m);
            ny >= 0 && ordinal(ny as nat, nm, 1) == ordinal(y, m, month_days(y as int, m)) + 1
        }),
{
    if m == 12 {
        lemma_year_is_twelve_months(y as int);
        assert(days_before_year(y + 1) == days_before_year(y) + year_len(y as int));
    }
}


/// `y + y/4 - y/100 + y/400`: each year moves the weekday of a date by one
/// day, and each leap day by one more.
pub open spec fn year_shift(y: int) -> int {
    y + y / 4 - y / 100 + y / 400
}

/// Zeller's year terms for a year `y >= 0` differ from `year_shift(y)` by a
/// multiple of 7.
proof fn lemma_century_terms(y: int)
    requires
        y >= 0,
    ensures
        trem(y, 100) + tdiv(trem(y, 100), 4) + tdiv(tdiv(y, 100), 4) - 2 * tdiv(y, 100)
            == year_shift(y) - 126 * (y / 100),
{
    let j = y / 100;
    let k = y % 100;
    assert(y == 100 * j + k && 0 <= k < 100 && j >= 0);
    assert(y / 4 == 25 * j + k / 4) by (nonlinear_arith)
        requires
            y == 100 * j + k,
            0 <= k < 100,
    {}
    assert(y / 400 == j / 4) by (nonlinear_arith)
        requires
            y == 100 * j + k,
            0 <= k < 100,
            j >= 0,
    {}
}

/// From year `y - 1` to year `y` the shift grows by one, and by two when
/// `y` is a leap year.
proof fn lemma_year_shift_step(y: int)
    requires
        y >= 1,
    ensures
        year_shift(y) - year_shift(y - 1) == 1 + (if leap(y) {
            1int
        } else {
            0int
        }),
{
    assert(y / 4 - (y - 1) / 4 == (if y % 4 == 0 {
        1int
    } else {
        0int
    }));
    assert(y / 100 - (y - 1) / 100 == (if y % 100 == 0 {
        1int
    } else {
        0int
    }));
    assert(y / 400 - (y - 1) / 400 == (if y % 400 == 0 {
        1int
    } else {
        0int
    }));
}

/// The weekday of the first of a month is the Zeller sum plus 6, modulo 7.
proof fn lemma_first_weekday_mod(year: u32, month: u32)
    requires
        1 <= year <= i32::MAX,
        1 <= month <= 12,
    ensures
        first_weekday(year, month) == (zeller_sum(zeller_year(year, month), zeller_month(month))
            + 6) % 7,
{
    let s = zeller_sum(zeller_year(year, month), zeller_month(month));
    let h = trem(s, 7);
    assert(-7 < h < 7);
    assert(h + 6 >= 0);
    assert(trem(h + 6, 7) == (h + 6) % 7);
    let t = tdiv(s, 7);
    assert(s + 6 == 7 * t + (h + 6));
    vstd::arithmetic::div_mod::lemma_mod_multiples_vanish(t, h + 6, 7);
}

/// Moving `a` on by `d`, up to a multiple of 7, moves `(a + 6) % 7` on by
/// `d` modulo 7.
proof fn lemma_weekday_step(a: int, b: int, d: int, t: int)
    requires
        b == a + d + 7 * t,
    ensures
        (b + 6) % 7 == ((a + 6) % 7 + d) % 7,
{
    vstd::arithmetic::div_mod::lemma_mod_multiples_vanish(t, a + 6 + d, 7);
    assert(b + 6 == 7 * t + (a + 6 + d));
    vstd::arithmetic::div_mod::lemma_add_mod_noop(a + 6, d, 7);
    vstd::arithmetic::div_mod::lemma_add_mod_noop((a + 6) % 7, d, 7);
    vstd::arithmetic::div_mod::lemma_mod_twice(a + 6, 7);
}

/// Zeller's month term `(13 * (m + 1)) / 5`, with January and February
/// counted as months 13 and 14.
spec fn month_term(month: int) -> int {
    if month == 1 {
        36
    } else if month == 2 {
        39
    } else {
        (13 * (month + 1)) / 5
    }
}

/// The year Zeller's congruence counts a month in.
spec fn counted_year(year: int, month: int) -> int {
    if month < 3 {
        year - 1
    } else {
        year
    }
}

/// The Zeller sum split into its month and year parts.
proof fn lemma_zeller_sum_parts(year: u32, month: u32)
    requires
        1 <= year <= i32::MAX,
        1 <= month <= 12,
    ensures
        zeller_sum(zeller_year(year, month), zeller_month(month)) == 1 + month_term(month as int)
            + year_shift(counted_year(year as int, month as int)) - 126 * (counted_year(
            year as int,
            month as int,
        ) / 100),
{
    let yy = counted_year(year as int, month as int);
    assert(zeller_year(year, month) == yy);
    lemma_century_terms(yy);
    let zm = zeller_month(month);
    assert(tdiv(13 * (zm + 1), 5) == month_term(month as int));
}

/// The first of March follows the last of February.
proof fn lemma_february_to_march(y: u32)
    requires
        1 <= y < i32::MAX,
    ensures
        first_weekday(y, 3) == (first_weekday(y, 2) + month_days(y as int, 2)) % 7,
{
    lemma_first_weekday_mod(y, 2);
    lemma_first_weekday_mod(y, 3);
    lemma_zeller_sum_parts(y, 2);
    lemma_zeller_sum_parts(y, 3);
    let yi = y as int;
    lemma_year_shift_step(yi);
    let a = zeller_sum(zeller_year(y, 2), zeller_month(2));
    let b = zeller_sum(zeller_year(y, 3), zeller_month(3));
    let dj = yi / 100 - (yi - 1) / 100;
    assert(b == a + month_days(yi, 2) - 56 - 126 * dj);
    lemma_weekday_step(a, b, month_days(yi, 2), -8 - 18 * dj);
}

/// Within a year, away from the end of February, the first of the next
/// month follows the last day of the month.
proof fn lemma_month_to_month(y: u32, m: u32)
    requires
        1 <= y < i32::MAX,
        1 <= m <= 11,
        m != 2,
    ensures
        first_weekday(y, (m + 1) as u32) == (first_weekday(y, m) + month_days(y as int, m as int))
            % 7,
{
    let m1 = (m + 1) as u32;
    lemma_first_weekday_mod(y, m);
    lemma_first_weekday_mod(y, m1);
    lemma_zeller_sum_parts(y, m);
    lemma_zeller_sum_parts(y, m1);
    let a = zeller_sum(zeller_year(y, m), zeller_month(m));
    let b = zeller_sum(zeller_year(y, m1), zeller_month(m1));
    assert(counted_year(y as int, m as int) == counted_year(y as int, m1 as int));
    assert(month_term(m1 as int) - month_term(m as int) == month_days(y as int, m as int) - 28);
    assert(b == a + month_days(y as int, m as int) - 28);
    lemma_weekday_step(a, b, month_days(y as int, m as int), -4);
}

/// The first of January follows the last of December.
proof fn lemma_december_to_january(y: u32)
    requires
        1 <= y < i32::MAX,
    ensures
        first_weekday((y + 1) as u32, 1) == (first_weekday(y, 12) + 31) % 7,
{
    let y1 = (y + 1) as u32;
    lemma_first_weekday_mod(y, 12);
    lemma_first_weekday_mod(y1, 1);
    lemma_zeller_sum_parts(y, 12);
    lemma_zeller_sum_parts(y1, 1);
    let c = zeller_sum(zeller_year(y, 12), zeller_month(12));
    let n = zeller_sum(zeller_year(y1, 1), zeller_month(1));
    assert(n == c + 3);
    lemma_weekday_step(c, n, 31, -4);
}

/// Each month begins on the weekday after the last day of the month before:
/// the first of month `m + 1` lies `days_in_month(y, m)` days after the
/// first of month `m`, and the first of January of year `y + 1` lies 31
/// days after the first of December of year `y`.
pub proof fn law_months_follow_on(y: u32, m: u32)
    requires
        1 <= y < i32::MAX,
        1 <= m <= 11,
    ensures
        0 <= first_weekday(y, m) < 7,
        first_weekday(y, (m + 1) as u32) == (first_weekday(y, m) + month_days(y as int, m as int))
            % 7,
        first_weekday((y + 1) as u32, 1) == (first_weekday(y, 12) + 31) % 7,
{
    lemma_first_weekday_mod(y, m);
    if m == 2 {
        lemma_february_to_march(y);
    } else {
        lemma_month_to_month(y, m);
    }
    lemma_december_to_january(y);
}

} // verus!
