//! Calendar dates and the HTTP date format.
//!
//! Times are counted in seconds since 1970-01-01 00:00:00 UTC. A date is
//! written as `Sun, 06 Nov 1994 08:49:37 GMT`.
use vstd::prelude::*;
use vstd::string::*;
use crate::number::{dec, dec2, format_u64, push_dec2};
use crate::text::string_of;

verus! {

pub open spec fn is_leap(y: int) -> bool {
    y % 4 == 0 && (y % 100 != 0 || y % 400 == 0)
}

pub open spec fn days_in_year(y: int) -> int {
    if is_leap(y) {
        366
    } else {
        365
    }
}

/// The number of leap years among the years `1..y`.
pub open spec fn leaps_before(y: int) -> int {
    (y - 1) / 4 - (y - 1) / 100 + (y - 1) / 400
}

/// The number of days from 1970-01-01 to the first day of year `y`.
pub open spec fn days_before_year(y: int) -> int {
    365 * (y - 1970) + leaps_before(y) - 477
}

pub open spec fn days_in_month(y: int, m: int) -> int {
    if m == 2 {
        if is_leap(y) {
            29
        } else {
            28
        }
    } else if m == 4 || m == 6 || m == 9 || m == 11 {
        30
    } else {
        31
    }
}

/// The number of days of year `y` that lie before its month `m`.
pub open spec fn days_before_month(y: int, m: int) -> int
    decreases m,
{
    if m <= 1 {
        0
    } else {
        days_before_month(y, m - 1) + days_in_month(y, m - 1)
    }
}

/// Whether `y-m-d` is a calendar date of 1970 or later.
pub open spec fn is_date(y: int, m: int, d: int) -> bool {
    y >= 1970 && 1 <= m <= 12 && 1 <= d <= days_in_month(y, m)
}

/// The number of days from 1970-01-01 to the date `y-m-d`.
pub open spec fn days_from_civil(y: int, m: int, d: int) -> int {
    days_before_year(y) + days_before_month(y, m) + d - 1
}

/// The day of the week of the day `days` after 1970-01-01, Sunday being 0.
pub open spec fn weekday(days: int) -> int {
    (days + 4) % 7
}

pub open spec fn day_name(w: int) -> Seq<char> {
    if w == 0 {
        "Sun"@
    } else if w == 1 {
        "Mon"@
    } else if w == 2 {
        "Tue"@
    } else if w == 3 {
        "Wed"@
    } else if w == 4 {
        "Thu"@
    } else if w == 5 {
        "Fri"@
    } else {
        "Sat"@
    }
}

pub open spec fn month_name(m: int) -> Seq<char> {
    if m == 1 {
        "Jan"@
    } else if m == 2 {
        "Feb"@
    } else if m == 3 {
        "Mar"@
    } else if m == 4 {
        "Apr"@
    } else if m == 5 {
        "May"@
    } else if m == 6 {
        "Jun"@
    } else if m == 7 {
        "Jul"@
    } else if m == 8 {
        "Aug"@
    } else if m == 9 {
        "Sep"@
    } else if m == 10 {
        "Oct"@
    } else if m == 11 {
        "Nov"@
    } else {
        "Dec"@
    }
}

/// The time of day `hh:mm:ss` of the second `s` of a day.
pub open spec fn clock_text(s: nat) -> Seq<char> {
    dec2(s / 3600) + ":"@ + dec2((s % 3600) / 60) + ":"@ + dec2(s % 60)
}

/// The HTTP date for the date `y-m-d`, which is `days` after 1970-01-01, at
/// second `s` of the day.
pub open spec fn http_date_text(days: int, y: int, m: int, d: int, s: nat) -> Seq<char> {
    day_name(weekday(days)) + ", "@ + dec2(d as nat) + " "@ + month_name(m) + " "@ + dec(y as nat)
        + " "@ + clock_text(s) + " GMT"@
}

/// The date and time `yyyy-mm-dd hh:mm:ss` for the date `y-m-d` at second `s`
/// of the day.
pub open spec fn plain_date_text(y: int, m: int, d: int, s: nat) -> Seq<char> {
    dec(y as nat) + "-"@ + dec2(m as nat) + "-"@ + dec2(d as nat) + " "@ + clock_text(s)
}

/// The calendar date `(year, month, day)` of the day `days` after
/// 1970-01-01: the one date that lies that many days after it.
pub open spec fn civil(days: int) -> (int, int, int) {
    choose|t: (int, int, int)| is_date(t.0, t.1, t.2) && days_from_civil(t.0, t.1, t.2) == days
}

/// The HTTP date of the instant `secs` seconds after the epoch.
pub open spec fn http_date(secs: nat) -> Seq<char> {
    let days = (secs / 86400) as int;
    let t = civil(days);
    http_date_text(days, t.0, t.1, t.2, secs % 86400)
}

/// The date and time of the instant `secs` seconds after the epoch, as
/// `yyyy-mm-dd hh:mm:ss`.
pub open spec fn plain_date(secs: nat) -> Seq<char> {
    let t = civil((secs / 86400) as int);
    plain_date_text(t.0, t.1, t.2, secs % 86400)
}

pub proof fn lemma_next_year(y: int)
    requires
        y >= 1,
    ensures
        days_before_year(y + 1) == days_before_year(y) + days_in_year(y),
{
}

proof fn lemma_one_cycle(y: int)
    requires
        y >= 1,
    ensures
        days_before_year(y + 400) == days_before_year(y) + 146097,
        is_leap(y + 400) == is_leap(y),
{
}

pub proof fn lemma_four_centuries(y: int, k: int)
    requires
        y >= 1,
        k >= 0,
    ensures
        days_before_year(y + 400 * k) == days_before_year(y) + 146097 * k,
        is_leap(y + 400 * k) == is_leap(y),
    decreases k,
{
    if k > 0 {
        lemma_four_centuries(y, k - 1);
        lemma_one_cycle(y + 400 * (k - 1));
    }
}

pub proof fn lemma_year_length(y: int)
    ensures
        days_before_month(y, 13) == days_in_year(y),
        days_before_month(y, 1) == 0,
{
    reveal_with_fuel(days_before_month, 14);
}

proof fn lemma_years_apart(y1: int, y2: int)
    requires
        1 <= y1 <= y2,
    ensures
        days_before_year(y2) >= days_before_year(y1) + 365 * (y2 - y1),
    decreases y2 - y1,
{
    if y1 < y2 {
        lemma_years_apart(y1, y2 - 1);
        lemma_next_year(y2 - 1);
    }
}

proof fn lemma_months_apart(y: int, m1: int, m2: int)
    requires
        1 <= m1 <= m2 <= 13,
    ensures
        days_before_month(y, m2) >= days_before_month(y, m1),
        m1 < m2 ==> days_before_month(y, m2) >= days_before_month(y, m1) + days_in_month(y, m1),
    decreases m2 - m1,
{
    if m1 < m2 {
        lemma_months_apart(y, m1, m2 - 1);
    }
}

/// Two dates that lie the same number of days after the epoch are one date.
pub proof fn lemma_date_unique(y1: int, m1: int, d1: int, y2: int, m2: int, d2: int)
    requires
        is_date(y1, m1, d1),
        is_date(y2, m2, d2),
        days_from_civil(y1, m1, d1) == days_from_civil(y2, m2, d2),
    ensures
        y1 == y2 && m1 == m2 && d1 == d2,
{
    lemma_year_length(y1);
    lemma_year_length(y2);
    lemma_months_apart(y1, m1, 13);
    lemma_months_apart(y2, m2, 13);
    lemma_months_apart(y1, 1, m1);
    lemma_months_apart(y2, 1, m2);
    if y1 < y2 {
        lemma_next_year(y1);
        lemma_years_apart(y1 + 1, y2);
    } else if y2 < y1 {
        lemma_next_year(y2);
        lemma_years_apart(y2 + 1, y1);
    } else if m1 < m2 {
        lemma_months_apart(y1, m1, m2);
    } else if m2 < m1 {
        lemma_months_apart(y1, m2, m1);
    }
}

/// A date found for a day is the date of that day.
pub proof fn lemma_civil(days: int, y: int, m: int, d: int)
    requires
        is_date(y, m, d),
        days_from_civil(y, m, d) == days,
    ensures
        civil(days) == (y, m, d),
{
    let w = (y, m, d);
    assert(is_date(w.0, w.1, w.2) && days_from_civil(w.0, w.1, w.2) == days);
    let t = civil(days);
    lemma_date_unique(y, m, d, t.0, t.1, t.2);
}

fn leap_year(y: u64) -> (r: bool)
    ensures
        r == is_leap(y as int),
{
    y % 4 == 0 && (y % 100 != 0 || y % 400 == 0)
}

fn month_length(y: u64, m: u64) -> (r: u64)
    ensures
        r == days_in_month(y as int, m as int),
        28 <= r <= 31,
{
    if m == 2 {
        if leap_year(y) {
            29
        } else {
            28
        }
    } else if m == 4 || m == 6 || m == 9 || m == 11 {
        30
    } else {
        31
    }
}

/// The calendar date of the day `days` after 1970-01-01, as year, month, day.
pub fn civil_from_days(days: u64) -> (r: (u64, u64, u64))
    ensures
        is_date(r.0 as int, r.1 as int, r.2 as int),
        days_from_civil(r.0 as int, r.1 as int, r.2 as int) == days,
        civil(days as int) == (r.0 as int, r.1 as int, r.2 as int),
{
    let cycles: u64 = days / 146097;
    let mut rem: u64 = days % 146097;
    let mut y: u64 = 1970 + 400 * cycles;
    proof {
        lemma_four_centuries(1970, cycles as int);
    }
    loop
        invariant
            1970 <= y <= 1970 + 400 * cycles + (146097 - rem),
            rem < 146097,
            cycles <= u64::MAX / 146097,
            days_before_year(y as int) + rem == days,
        ensures
            rem < days_in_year(y as int),
        decreases rem,
    {
        let len: u64 = if leap_year(y) {
            366
        } else {
            365
        };
        if rem < len {
            break ;
        }
        proof {
            lemma_next_year(y as int);
        }
        rem -= len;
        y += 1;
    }
    let mut m: u64 = 1;
    proof {
        lemma_year_length(y as int);
    }
    loop
        invariant
            1 <= m <= 12,
            y >= 1970,
            rem < 146097,
            days_before_year(y as int) + days_before_month(y as int, m as int) + rem == days,
            days_before_month(y as int, m as int) + rem < days_in_year(y as int),
            days_before_month(y as int, 13) == days_in_year(y as int),
        ensures
            rem < days_in_month(y as int, m as int),
        decreases 12 - m,
    {
        let len = month_length(y, m);
        if rem < len {
            break ;
        }
        proof {
            reveal_with_fuel(days_before_month, 14);
        }
        rem -= len;
        m += 1;
    }
    proof {
        lemma_civil(days as int, y as int, m as int, rem + 1);
    }
    (y, m, rem + 1)
}

fn day_label(w: u64) -> (r: &'static str)
    ensures
        r@ == day_name(w as int),
{
    if w == 0 {
        "Sun"
    } else if w == 1 {
        "Mon"
    } else if w == 2 {
        "Tue"
    } else if w == 3 {
        "Wed"
    } else if w == 4 {
        "Thu"
    } else if w == 5 {
        "Fri"
    } else {
        "Sat"
    }
}

fn month_label(m: u64) -> (r: &'static str)
    ensures
        r@ == month_name(m as int),
{
    if m == 1 {
        "Jan"
    } else if m == 2 {
        "Feb"
    } else if m == 3 {
        "Mar"
    } else if m == 4 {
        "Apr"
    } else if m == 5 {
        "May"
    } else if m == 6 {
        "Jun"
    } else if m == 7 {
        "Jul"
    } else if m == 8 {
        "Aug"
    } else if m == 9 {
        "Sep"
    } else if m == 10 {
        "Oct"
    } else if m == 11 {
        "Nov"
    } else {
        "Dec"
    }
}

fn push_clock(r: &mut String, s: u64)
    requires
        s < 86400,
    ensures
        final(r)@ == old(r)@ + clock_text(s as nat),
{
    push_dec2(r, s / 3600);
    r.append(":");
    push_dec2(r, (s % 3600) / 60);
    r.append(":");
    push_dec2(r, s % 60);
    assert(r@ =~= old(r)@ + clock_text(s as nat));
}

/// The HTTP date of the instant `secs` seconds after the epoch.
pub fn fmt_http_date(secs: u64) -> (r: String)
    ensures
        r@ == http_date(secs as nat),
{
    let days: u64 = secs / 86400;
    let s: u64 = secs % 86400;
    let (y, m, d) = civil_from_days(days);
    let mut r = String::from_str(day_label((days % 7 + 4) % 7));
    r.append(", ");
    push_dec2(&mut r, d);
    r.append(" ");
    r.append(month_label(m));
    r.append(" ");
    let year = string_of(format_u64(y).as_slice());
    r.append(year.as_str());
    r.append(" ");
    push_clock(&mut r, s);
    r.append(" GMT");
    assert(r@ =~= http_date_text(days as int, y as int, m as int, d as int, s as nat));
    r
}

/// The date and time of the instant `secs` seconds after the epoch, as
/// `yyyy-mm-dd hh:mm:ss`.
pub fn format_time(secs: u64) -> (r: String)
    ensures
        r@ == plain_date(secs as nat),
{
    let days: u64 = secs / 86400;
    let s: u64 = secs % 86400;
    let (y, m, d) = civil_from_days(days);
    let mut r = string_of(format_u64(y).as_slice());
    r.append("-");
    push_dec2(&mut r, m);
    r.append("-");
    push_dec2(&mut r, d);
    r.append(" ");
    push_clock(&mut r, s);
    assert(r@ =~= plain_date_text(y as int, m as int, d as int, s as nat));
    r
}

} // verus!
