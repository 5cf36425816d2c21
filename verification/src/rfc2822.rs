//! RFC 2822 formatting of a post's creation time for the feed's `pubDate`.
//!
//! The civil-calendar conversion (days since the Unix epoch to year, month
//! and day) is computed and verified here; the output has the shape
//! `Thu, 01 Jan 1970 00:00:00 +0000`, always in UTC and with two-digit
//! day-of-month, which RFC 2822 permits.

use vstd::prelude::*;

use crate::classify::digit_char_spec;
use crate::escape::push_char;

verus! {

pub open spec fn is_leap_year(y: int) -> bool {
    y % 4 == 0 && (y % 100 != 0 || y % 400 == 0)
}

pub open spec fn days_in_year(y: int) -> int {
    if is_leap_year(y) {
        366
    } else {
        365
    }
}

/// Days of month `m` (1-based) of year `y`.
pub open spec fn days_in_month(y: int, m: int) -> int {
    if m == 2 {
        if is_leap_year(y) {
            29
        } else {
            28
        }
    } else if m == 4 || m == 6 || m == 9 || m == 11 {
        30
    } else {
        31
    }
}

/// The year holding day `d` (counted from the start of year `y`), and the
/// remaining day-of-year.
pub open spec fn year_and_rem(y: int, d: int) -> (int, int)
    decreases d,
{
    if d < days_in_year(y) {
        (y, d)
    } else {
        year_and_rem(y + 1, d - days_in_year(y))
    }
}

/// The month holding day `d` of year `y` (counted from the start of month
/// `m`), and the remaining 0-based day-of-month.
pub open spec fn month_and_day(y: int, m: int, d: int) -> (int, int)
    decreases 12 - m,
{
    if m >= 12 || d < days_in_month(y, m) {
        (m, d)
    } else {
        month_and_day(y, m + 1, d - days_in_month(y, m))
    }
}

pub open spec fn weekday_name_spec(w: int) -> Seq<char> {
    if w == 0 {
        "Sun"@
    } else if w == 1 {
        "Mon"@
    } else if w == 2 {
        "Tue"@
    } else if w == 3 {
        "Wed"@
    } else if w == 4 {
        "Thu"@
    } else if w == 5 {
        "Fri"@
    } else {
        "Sat"@
    }
}

pub open spec fn month_name_spec(m: int) -> Seq<char> {
    if m == 1 {
        "Jan"@
    } else if m == 2 {
        "Feb"@
    } else if m == 3 {
        "Mar"@
    } else if m == 4 {
        "Apr"@
    } else if m == 5 {
        "May"@
    } else if m == 6 {
        "Jun"@
    } else if m == 7 {
        "Jul"@
    } else if m == 8 {
        "Aug"@
    } else if m == 9 {
        "Sep"@
    } else if m == 10 {
        "Oct"@
    } else if m == 11 {
        "Nov"@
    } else {
        "Dec"@
    }
}

pub open spec fn two_digits_spec(n: int) -> Seq<char> {
    seq![digit_char_spec(n / 10), digit_char_spec(n % 10)]
}

pub open spec fn four_digits_spec(n: int) -> Seq<char> {
    seq![
        digit_char_spec(n / 1000),
        digit_char_spec((n / 100) % 10),
        digit_char_spec((n / 10) % 10),
        digit_char_spec(n % 10),
    ]
}

/// The RFC 2822 rendering of `t` seconds since the Unix epoch, in UTC.
pub open spec fn rfc2822_spec(t: int) -> Seq<char> {
    let days = t / 86400;
    let secs = t % 86400;
    let w = (days + 4) % 7;
    let yr = year_and_rem(1970, days);
    let md = month_and_day(yr.0, 1, yr.1);
    weekday_name_spec(w) + ", "@ + two_digits_spec(md.1 + 1) + " "@ + month_name_spec(md.0) + " "@
        + four_digits_spec(yr.0) + " "@ + two_digits_spec(secs / 3600) + ":"@ + two_digits_spec(
        (secs / 60) % 60,
    ) + ":"@ + two_digits_spec(secs % 60) + " +0000"@
}

/// A timestamp the formatter accepts: non-negative and before the year
/// 10000, so the year always has four digits.
pub open spec fn formattable(t: int) -> bool {
    0 <= t && year_and_rem(1970, t / 86400).0 <= 9999
}

/// Counting forward never reaches an earlier year.
pub proof fn lemma_year_ge(y: int, d: int)
    ensures
        year_and_rem(y, d).0 >= y,
    decreases d,
{
    if d < days_in_year(y) {
    } else {
        lemma_year_ge(y + 1, d - days_in_year(y));
    }
}

fn is_leap_year_exec(y: u64) -> (r: bool)
    ensures
        r == is_leap_year(y as int),
{
    y % 4 == 0 && (y % 100 != 0 || y % 400 == 0)
}

fn days_in_year_exec(y: u64) -> (r: u64)
    ensures
        r as int == days_in_year(y as int),
{
    if is_leap_year_exec(y) {
        366
    } else {
        365
    }
}

fn days_in_month_exec(y: u64, m: u64) -> (r: u64)
    ensures
        r as int == days_in_month(y as int, m as int),
{
    if m == 2 {
        if is_leap_year_exec(y) {
            29
        } else {
            28
        }
    } else if m == 4 || m == 6 || m == 9 || m == 11 {
        30
    } else {
        31
    }
}

fn digit_u64(d: u64) -> (c: char)
    requires
        d < 10,
    ensures
        c == digit_char_spec(d as int),
{
    if d == 0 {
        '0'
    } else if d == 1 {
        '1'
    } else if d == 2 {
        '2'
    } else if d == 3 {
        '3'
    } else if d == 4 {
        '4'
    } else if d == 5 {
        '5'
    } else if d == 6 {
        '6'
    } else if d == 7 {
        '7'
    } else if d == 8 {
        '8'
    } else {
        '9'
    }
}

fn push_two_digits(out: &mut String, n: u64)
    requires
        n < 100,
    ensures
        final(out)@ == old(out)@ + two_digits_spec(n as int),
{
    push_char(out, digit_u64(n / 10));
    push_char(out, digit_u64(n % 10));
    proof {
        assert(out@ =~= old(out)@ + two_digits_spec(n as int));
    }
}

fn push_four_digits(out: &mut String, n: u64)
    requires
        n < 10000,
    ensures
        final(out)@ == old(out)@ + four_digits_spec(n as int),
{
    push_char(out, digit_u64(n / 1000));
    push_char(out, digit_u64((n / 100) % 10));
    push_char(out, digit_u64((n / 10) % 10));
    push_char(out, digit_u64(n % 10));
    proof {
        assert(out@ =~= old(out)@ + four_digits_spec(n as int));
    }
}

fn push_weekday(out: &mut String, w: u64)
    requires
        w < 7,
    ensures
        final(out)@ == old(out)@ + weekday_name_spec(w as int),
{
    if w == 0 {
        out.append("Sun");
    } else if w == 1 {
        out.append("Mon");
    } else if w == 2 {
        out.append("Tue");
    } else if w == 3 {
        out.append("Wed");
    } else if w == 4 {
        out.append("Thu");
    } else if w == 5 {
        out.append("Fri");
    } else {
        out.append("Sat");
    }
}

fn push_month(out: &mut String, m: u64)
    requires
        1 <= m <= 12,
    ensures
        final(out)@ == old(out)@ + month_name_spec(m as int),
{
    if m == 1 {
        out.append("Jan");
    } else if m == 2 {
        out.append("Feb");
    } else if m == 3 {
        out.append("Mar");
    } else if m == 4 {
        out.append("Apr");
    } else if m == 5 {
        out.append("May");
    } else if m == 6 {
        out.append("Jun");
    } else if m == 7 {
        out.append("Jul");
    } else if m == 8 {
        out.append("Aug");
    } else if m == 9 {
        out.append("Sep");
    } else if m == 10 {
        out.append("Oct");
    } else if m == 11 {
        out.append("Nov");
    } else {
        out.append("Dec");
    }
}

/// Formats a creation time as an RFC 2822 date, or `None` exactly when the
/// timestamp is negative or past the year 9999 — the feed item then omits
/// its publish date rather than inventing one.
pub fn format_rfc2822(t: i64) -> (r: Option<String>)
    ensures
        r matches Some(s) ==> formattable(t as int) && s@ == rfc2822_spec(t as int),
        r is None ==> !formattable(t as int),
{
    if t < 0 {
        return None;
    }
    let tu: u64 = t as u64;
    let days0: u64 = tu / 86400;
    let secs: u64 = tu % 86400;
    proof {
        assert(86400 * (days0 as int) <= tu as int);
    }
    let mut y: u64 = 1970;
    let mut d: u64 = days0;
    while d >= days_in_year_exec(y)
        invariant
            days0 < 0x10000000000000,
            0 <= t,
            days0 as int == t as int / 86400,
            1970 <= y,
            y as int - 1970 <= days0 as int - d as int,
            d <= days0,
            year_and_rem(1970, days0 as int) == year_and_rem(y as int, d as int),
        decreases d,
    {
        if y > 9999 {
            proof {
                lemma_year_ge(y as int, d as int);
            }
            return None;
        }
        let diy = days_in_year_exec(y);
        proof {
            assert(year_and_rem(y as int, d as int) == year_and_rem(
                y as int + 1,
                d as int - days_in_year(y as int),
            ));
        }
        d = d - diy;
        y = y + 1;
    }
    if y > 9999 {
        return None;
    }
    let ghost day_of_year = d as int;
    let mut m: u64 = 1;
    while m < 12 && d >= days_in_month_exec(y, m)
        invariant
            1 <= m <= 12,
            d as int <= 366 - 28 * (m as int - 1),
            month_and_day(y as int, 1, day_of_year) == month_and_day(y as int, m as int, d as int),
        decreases 12 - m,
    {
        let dim = days_in_month_exec(y, m);
        proof {
            assert(month_and_day(y as int, m as int, d as int) == month_and_day(
                y as int,
                m as int + 1,
                d as int - days_in_month(y as int, m as int),
            ));
        }
        d = d - dim;
        m = m + 1;
    }
    let w = (days0 + 4) % 7;
    let mut out = String::new();
    push_weekday(&mut out, w);
    out.append(", ");
    push_two_digits(&mut out, d + 1);
    out.append(" ");
    push_month(&mut out, m);
    out.append(" ");
    push_four_digits(&mut out, y);
    out.append(" ");
    push_two_digits(&mut out, secs / 3600);
    out.append(":");
    push_two_digits(&mut out, (secs / 60) % 60);
    out.append(":");
    push_two_digits(&mut out, secs % 60);
    out.append(" +0000");
    proof {
        assert(out@ =~= rfc2822_spec(t as int));
    }
    Some(out)
}

} // verus!
