//! Calendar dates of commit timestamps (UTC, proleptic Gregorian), and the start of
//! the date windows that the issue list can be limited to.
use vstd::prelude::*;
use crate::text::{push_char, push_zero_padded, zero_padded, eq_str};

verus! {

pub open spec fn leap(y: int) -> bool {
    (y % 4 == 0 && y % 100 != 0) || y % 400 == 0
}

pub open spec fn days_in_year(y: int) -> int {
    if leap(y) { 366 } else { 365 }
}

/// Length of month `m` (1-based).
pub open spec fn days_in_month(m: int, is_leap: bool) -> int {
    if m == 2 {
        if is_leap { 29 } else { 28 }
    } else if m == 4 || m == 6 || m == 9 || m == 11 {
        30
    } else {
        31
    }
}

/// Division rounding toward zero, as Rust's `/` on signed integers.
pub open spec fn tdiv(a: int, b: int) -> int {
    if a >= 0 { a / b } else { -((-a) / b) }
}

/// Remainder with the sign of `a`, as Rust's `%` on signed integers.
pub open spec fn tmod(a: int, b: int) -> int {
    a - tdiv(a, b) * b
}

/// Counting whole years from `year` on: the year that day number `days` falls in,
/// and the day within it. A negative day number stays in `year`.
pub open spec fn year_walk(days: int, year: int) -> (int, int)
    decreases days,
{
    if days < days_in_year(year) || days < 0 {
        (year, days)
    } else {
        year_walk(days - days_in_year(year), year + 1)
    }
}

/// Counting whole months from month `m` on.
pub open spec fn month_walk(doy: int, is_leap: bool, m: int) -> (int, int)
    decreases 13 - m,
{
    if m > 12 || doy < days_in_month(m, is_leap) {
        (m, doy)
    } else {
        month_walk(doy - days_in_month(m, is_leap), is_leap, m + 1)
    }
}

/// Year, month, day, hour and minute of a Unix timestamp, the way `secs_to_ymdhm`
/// computes them: whole days counted from 1970-01-01, the time of day from the
/// remainder. (Before 1970 the day count is negative and stays in 1970.)
pub open spec fn ymdhm(secs: int) -> (i64, u32, u32, u32, u32) {
    let days = tdiv(secs, 86400);
    let rem = tmod(secs, 86400);
    let (year, doy) = year_walk(days, 1970);
    let (month, dom) = month_walk(doy, leap(year), 1);
    (year as i64, month as u32, (dom + 1) as u32, tdiv(rem, 3600) as u32, tdiv(tmod(rem, 3600), 60) as u32)
}

/// Whether `year` is a leap year.
pub fn is_leap(year: i64) -> (r: bool)
    ensures
        r == leap(year as int),
{
    (year % 4 == 0 && year % 100 != 0) || (year % 400 == 0)
}

proof fn lemma_year_walk_bounds(days: int, year: int)
    requires
        year >= 1970,
    ensures
        year_walk(days, year).0 >= year,
        year_walk(days, year).0 <= year + (if days >= 0 { days } else { 0 }),
        days >= 0 ==> 0 <= year_walk(days, year).1 < days_in_year(year_walk(days, year).0),
        days < 0 ==> year_walk(days, year) == (year, days),
    decreases days,
{
    if days < days_in_year(year) || days < 0 {
    } else {
        lemma_year_walk_bounds(days - days_in_year(year), year + 1);
    }
}

fn year_len(y: i64) -> (r: i64)
    ensures
        r == days_in_year(y as int),
{
    if is_leap(y) { 366 } else { 365 }
}

fn month_len(m: i64, is_leap: bool) -> (r: i64)
    ensures
        r == days_in_month(m as int, is_leap),
{
    if m == 2 {
        if is_leap { 29 } else { 28 }
    } else if m == 4 || m == 6 || m == 9 || m == 11 {
        30
    } else {
        31
    }
}

/// Converts Unix seconds to (year, month, day, hour, minute).
pub fn secs_to_ymdhm(secs: i64) -> (r: (i64, u32, u32, u32, u32))
    ensures
        r == ymdhm(secs as int),
{
    let days = secs / 86400;
    let remaining = secs % 86400;
    let hour = (remaining / 3600) as u32;
    let min = ((remaining % 3600) / 60) as u32;

    let mut year: i64 = 1970;
    let mut day_of_year = days;
    proof {
        lemma_year_walk_bounds(days as int, 1970);
    }
    while day_of_year >= year_len(year)
        invariant
            1970 <= year,
            days >= 0 ==> year - 1970 + day_of_year <= days,
            days < 0 ==> year == 1970,
            days <= 106751991167300,
            days == tdiv(secs as int, 86400),
            year_walk(day_of_year as int, year as int) == year_walk(days as int, 1970),
            days < 0 ==> day_of_year == days && year == 1970,
            days >= 0 ==> day_of_year >= 0,
            day_of_year <= days,
        decreases day_of_year,
    {
        day_of_year = day_of_year - year_len(year);
        year = year + 1;
    }
    let lp = is_leap(year);
    let ghost doy0 = day_of_year;
    let mut month: i64 = 1;
    while month <= 12 && day_of_year >= month_len(month, lp)
        invariant
            1 <= month <= 13,
            lp == leap(year as int),
            month_walk(day_of_year as int, lp, month as int) == month_walk(doy0 as int, lp, 1),
            day_of_year <= doy0,
            doy0 <= days,
            days <= 106751991167300,
        decreases 13 - month,
    {
        day_of_year = day_of_year - month_len(month, lp);
        month = month + 1;
    }
    (year, month as u32, (day_of_year + 1) as u32, hour, min)
}

/// Days from 1970-01-01 to the first day of `year` (for `year >= 1970`).
pub open spec fn days_before_year(year: int) -> int
    decreases year - 1970,
{
    if year <= 1970 {
        0
    } else {
        days_before_year(year - 1) + days_in_year(year - 1)
    }
}

/// Days of the year before the first day of month `m` (1..=13).
pub open spec fn days_before_month(m: int, is_leap: bool) -> int {
    let l: int = if is_leap { 1 } else { 0 };
    if m <= 1 { 0 }
    else if m == 2 { 31 }
    else if m == 3 { 59 + l }
    else if m == 4 { 90 + l }
    else if m == 5 { 120 + l }
    else if m == 6 { 151 + l }
    else if m == 7 { 181 + l }
    else if m == 8 { 212 + l }
    else if m == 9 { 243 + l }
    else if m == 10 { 273 + l }
    else if m == 11 { 304 + l }
    else if m == 12 { 334 + l }
    else { 365 + l }
}

proof fn lemma_year_walk_sum(days: int, year: int)
    requires
        year >= 1970,
        days >= 0,
    ensures
        days_before_year(year_walk(days, year).0) + year_walk(days, year).1 == days_before_year(year)
            + days,
    decreases days,
{
    if days < days_in_year(year) {
    } else {
        lemma_year_walk_sum(days - days_in_year(year), year + 1);
    }
}

proof fn lemma_month_walk(doy: int, lp: bool, m: int)
    requires
        1 <= m <= 12,
        doy >= 0,
        doy + days_before_month(m, lp) < days_before_month(13, lp),
    ensures
        m <= month_walk(doy, lp, m).0 <= 12,
        0 <= month_walk(doy, lp, m).1 < days_in_month(month_walk(doy, lp, m).0, lp),
        days_before_month(month_walk(doy, lp, m).0, lp) + month_walk(doy, lp, m).1 == doy
            + days_before_month(m, lp),
    decreases 13 - m,
{
    assert(days_before_month(m + 1, lp) == days_before_month(m, lp) + days_in_month(m, lp));
    if doy < days_in_month(m, lp) {
    } else {
        lemma_month_walk(doy - days_in_month(m, lp), lp, m + 1);
    }
}

/// For any instant from 1970 on, `secs_to_ymdhm` gives a valid calendar date and
/// time of day, and that date and time are the instant's: the days before the
/// year, the days of the year before the month and the day of the month add up to
/// the whole days since 1970-01-01, and hour and minute are those of the
/// remaining seconds.
pub proof fn law_ymdhm_is_exact(secs: int)
    requires
        0 <= secs <= i64::MAX,
    ensures
        ({
            let (y, mo, d, h, mi) = ymdhm(secs);
            &&& y >= 1970
            &&& 1 <= mo <= 12
            &&& 1 <= d <= days_in_month(mo as int, leap(y as int))
            &&& h < 24
            &&& mi < 60
            &&& days_before_year(y as int) + days_before_month(mo as int, leap(y as int)) + (d - 1)
                == secs / 86400
            &&& h * 3600 + mi * 60 <= secs % 86400 < h * 3600 + mi * 60 + 60
        }),
{
    let days = tdiv(secs, 86400);
    lemma_year_walk_bounds(days, 1970);
    lemma_year_walk_sum(days, 1970);
    let (year, doy) = year_walk(days, 1970);
    assert(days_before_month(13, leap(year)) == days_in_year(year));
    assert(days_before_month(1, leap(year)) == 0);
    lemma_month_walk(doy, leap(year), 1);
    let (month, dom) = month_walk(doy, leap(year), 1);
    assert(days_in_month(month, leap(year)) <= 31);
    assert(year <= 1970 + days);
    assert(days <= 106751991167300);
}

proof fn lemma_year_walk_strict(d1: int, d2: int, year: int)
    requires
        year >= 1970,
        0 <= d1 < d2,
    ensures
        year_walk(d1, year).0 < year_walk(d2, year).0 || (year_walk(d1, year).0 == year_walk(d2, year).0
            && year_walk(d1, year).1 < year_walk(d2, year).1),
    decreases d2,
{
    let n = days_in_year(year);
    if d2 < n {
    } else if d1 < n {
        lemma_year_walk_bounds(d2 - n, year + 1);
    } else {
        lemma_year_walk_strict(d1 - n, d2 - n, year + 1);
    }
}

proof fn lemma_month_walk_from(doy: int, lp: bool, m: int)
    ensures
        month_walk(doy, lp, m).0 >= m,
    decreases 13 - m,
{
    if !(m > 12 || doy < days_in_month(m, lp)) {
        lemma_month_walk_from(doy - days_in_month(m, lp), lp, m + 1);
    }
}

proof fn lemma_month_walk_strict(a: int, b: int, lp: bool, m: int)
    requires
        0 <= a < b,
    ensures
        month_walk(a, lp, m).0 < month_walk(b, lp, m).0 || (month_walk(a, lp, m).0 == month_walk(b, lp, m).0
            && month_walk(a, lp, m).1 < month_walk(b, lp, m).1),
    decreases 13 - m,
{
    let n = days_in_month(m, lp);
    if m > 12 || b < n {
    } else if a < n {
        lemma_month_walk_from(b - n, lp, m + 1);
    } else {
        lemma_month_walk_strict(a - n, b - n, lp, m + 1);
    }
}

/// Whether date and time `a` comes no later than `b`: year, month, day, hour
/// and minute compared in that order.
pub open spec fn ymdhm_le(a: (i64, u32, u32, u32, u32), b: (i64, u32, u32, u32, u32)) -> bool {
    a.0 < b.0 || (a.0 == b.0 && (a.1 < b.1 || (a.1 == b.1 && (a.2 < b.2 || (a.2 == b.2 && (a.3 < b.3 || (a.3
        == b.3 && a.4 <= b.4)))))))
}

/// A later timestamp never gives an earlier calendar date and time.
pub proof fn law_calendar_is_monotone(s1: int, s2: int)
    requires
        0 <= s1 <= s2 <= i64::MAX,
    ensures
        ymdhm_le(ymdhm(s1), ymdhm(s2)),
{
    law_ymdhm_is_exact(s1);
    law_ymdhm_is_exact(s2);
    let d1 = s1 / 86400;
    let d2 = s2 / 86400;
    vstd::arithmetic::div_mod::lemma_div_is_ordered(s1, s2, 86400);
    lemma_year_walk_bounds(d1, 1970);
    lemma_year_walk_bounds(d2, 1970);
    let (y1, doy1) = year_walk(d1, 1970);
    let (y2, doy2) = year_walk(d2, 1970);
    assert(d1 <= 106751991167300 && d2 <= 106751991167300);
    if d1 < d2 {
        lemma_year_walk_strict(d1, d2, 1970);
        if y1 == y2 {
            lemma_month_walk_strict(doy1, doy2, leap(y1), 1);
            lemma_month_walk(doy1, leap(y1), 1);
            lemma_month_walk(doy2, leap(y1), 1);
            assert(days_before_month(13, leap(y1)) == days_in_year(y1));
            assert(days_before_month(1, leap(y1)) == 0);
        }
    } else {
        let r1 = s1 % 86400;
        let r2 = s2 % 86400;
        assert(r1 <= r2);
        vstd::arithmetic::div_mod::lemma_div_is_ordered(r1, r2, 3600);
        if r1 / 3600 == r2 / 3600 {
            vstd::arithmetic::div_mod::lemma_div_is_ordered(r1 % 3600, r2 % 3600, 60);
        }
    }
}

pub open spec fn abs(x: int) -> int {
    if x >= 0 { x } else { -x }
}

/// `YYYY-MM-DD` of a timestamp.
pub open spec fn date_short_text(secs: int) -> Seq<char> {
    let (y, mo, d, h, mi) = ymdhm(secs);
    zero_padded(y as nat, 4) + seq!['-'] + zero_padded(mo as nat, 2) + seq!['-'] + zero_padded(d as nat, 2)
}

/// `YYYY-MM-DDTHH:MM:00+HH:MM` of a timestamp and a time-zone offset in minutes.
/// The date and time are those of the timestamp in UTC; the offset is only written.
pub open spec fn date_full_text(secs: int, offset: int) -> Seq<char> {
    let (y, mo, d, h, mi) = ymdhm(secs);
    date_short_text(secs) + seq!['T'] + zero_padded(h as nat, 2) + seq![':'] + zero_padded(mi as nat, 2)
        + seq![':', '0', '0'] + seq![if offset >= 0 { '+' } else { '-' }] + zero_padded(
        abs(tdiv(offset, 60)) as nat,
        2,
    ) + seq![':'] + zero_padded((abs(offset) % 60) as nat, 2)
}

proof fn lemma_year_nonneg(secs: int)
    requires
        i64::MIN <= secs <= i64::MAX,
    ensures
        ymdhm(secs).0 >= 1970,
{
    lemma_year_walk_bounds(tdiv(secs, 86400), 1970);
    let days = tdiv(secs, 86400);
    assert(days <= 106751991167300);
}

fn push_date(s: &mut String, secs: i64)
    ensures
        final(s)@ == old(s)@ + date_short_text(secs as int),
{
    let (y, mo, d, _h, _mi) = secs_to_ymdhm(secs);
    proof {
        lemma_year_nonneg(secs as int);
    }
    push_zero_padded(s, y as u64, 4);
    push_char(s, '-');
    push_zero_padded(s, mo as u64, 2);
    push_char(s, '-');
    push_zero_padded(s, d as u64, 2);
    assert(s@ =~= old(s)@ + date_short_text(secs as int));
}

/// `YYYY-MM-DD` of a Unix timestamp.
pub fn format_date_short(secs: i64) -> (r: String)
    ensures
        r@ == date_short_text(secs as int),
{
    let mut s = String::new();
    push_date(&mut s, secs);
    assert(s@ =~= date_short_text(secs as int));
    s
}

/// `YYYY-MM-DDTHH:MM:00+HH:MM` of a Unix timestamp and an offset in minutes.
pub fn format_date_full(secs: i64, offset: i32) -> (r: String)
    ensures
        r@ == date_full_text(secs as int, offset as int),
{
    let mut s = String::new();
    push_date(&mut s, secs);
    let (_y, _mo, _d, h, mi) = secs_to_ymdhm(secs);
    push_char(&mut s, 'T');
    push_zero_padded(&mut s, h as u64, 2);
    push_char(&mut s, ':');
    push_zero_padded(&mut s, mi as u64, 2);
    push_char(&mut s, ':');
    push_char(&mut s, '0');
    push_char(&mut s, '0');
    let off = offset as i64;
    let tz_h = off / 60;
    let tz_h_abs = if tz_h >= 0 { tz_h } else { -tz_h };
    let off_abs = if off >= 0 { off } else { -off };
    let tz_m = off_abs % 60;
    push_char(&mut s, if offset >= 0 { '+' } else { '-' });
    push_zero_padded(&mut s, tz_h_abs as u64, 2);
    push_char(&mut s, ':');
    push_zero_padded(&mut s, tz_m as u64, 2);
    assert(s@ =~= date_full_text(secs as int, offset as int));
    s
}

/// How many days back a date window of the issue list reaches: `today`, `week`,
/// `month` or `year`; any other name is no window.
pub open spec fn window_days(filter: Seq<char>) -> Option<int> {
    if filter == "today"@ {
        Some(0)
    } else if filter == "week"@ {
        Some(7)
    } else if filter == "month"@ {
        Some(30)
    } else if filter == "year"@ {
        Some(365)
    } else {
        None
    }
}

/// Midnight (UTC) at the start of the day that contains `t`.
pub open spec fn day_start(t: int) -> int {
    (t / 86400) * 86400
}

/// The start of a date window at time `now`: midnight of the day that lies the
/// window's number of days before `now`.
pub open spec fn window_start(filter: Seq<char>, now: int) -> Option<int> {
    match window_days(filter) {
        Some(k) => Some(day_start(now - k * 86400)),
        None => None,
    }
}

/// The start (Unix seconds) of the date window `filter` at time `now`.
pub fn since_timestamp(filter: &str, now: i64) -> (r: Option<i64>)
    requires
        now >= i64::MIN + 366 * 86400,
    ensures
        r matches Some(v) ==> window_start(filter@, now as int) == Some(v as int),
        r is None ==> window_start(filter@, now as int) is None,
{
    let days: i64 = if eq_str(filter, "today") {
        0
    } else if eq_str(filter, "week") {
        7
    } else if eq_str(filter, "month") {
        30
    } else if eq_str(filter, "year") {
        365
    } else {
        return None;
    };
    let t = now - days * 86400;
    let q = if t < 0 && t % 86400 != 0 { t / 86400 - 1 } else { t / 86400 };
    assert(q == t as int / 86400);
    Some(q * 86400)
}

/// The current time in whole Unix seconds, from `std::time::SystemTime::now`
/// measured from `UNIX_EPOCH` with `duration_since`: nothing when the clock
/// reads before 1970 (or past what an `i64` holds). The clock gives any value,
/// so nothing more is stated.
#[verifier::external_body]
fn utc_now_secs() -> (r: Option<i64>)
    ensures
        r matches Some(x) ==> x >= 0,
{
    let d = std::time::SystemTime::now().duration_since(std::time::UNIX_EPOCH).ok()?;
    i64::try_from(d.as_secs()).ok()
}

/// The start of the date window `filter` as of now; nothing for a name that is
/// no window, or when the clock reads before 1970.
pub fn compute_since_date(filter: &str) -> (r: Option<i64>)
    ensures
        window_days(filter@) is None ==> r is None,
        window_days(filter@) is Some && r is Some ==> exists|now: int|
            now >= 0 && #[trigger] window_start(filter@, now) == Some(r->0 as int),
{
    match utc_now_secs() {
        Some(now) => {
            let r = since_timestamp(filter, now);
            proof {
                if window_days(filter@) is Some && r is Some {
                    assert(window_start(filter@, now as int) == Some(r->0 as int));
                }
            }
            r
        },
        None => None,
    }
}

} // verus!
