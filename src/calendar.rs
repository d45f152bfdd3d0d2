//! Calendar values read from timestamps, and the calendar facts that chrono
//! computes for them.
use chrono::{Datelike, Timelike};
use vstd::prelude::*;

verus! {

/// A calendar date and time of day, as read from a timestamp.
#[derive(Debug, Clone, Copy, PartialEq, Eq, Structural)]
pub struct DateTime {
    pub year: i32,
    pub month: u32,
    pub day: u32,
    pub hour: u32,
    pub minute: u32,
    pub second: u32,
    /// Nanoseconds past the second; a leap second reads 1_000_000_000 or more.
    pub nanosecond: u32,
}

/// Earliest and latest years that chrono's dates represent.
pub const MIN_YEAR: i32 = -262143;
pub const MAX_YEAR: i32 = 262142;

pub open spec fn is_leap_year(y: int) -> bool {
    (y % 4 == 0 && y % 100 != 0) || y % 400 == 0
}

pub open spec fn days_in_month(y: int, m: int) -> int {
    if m == 2 {
        if is_leap_year(y) { 29 } else { 28 }
    } else if m == 4 || m == 6 || m == 9 || m == 11 {
        30
    } else {
        31
    }
}

/// A proleptic Gregorian date in chrono's range.
pub open spec fn valid_date(y: int, m: int, d: int) -> bool {
    &&& MIN_YEAR <= y <= MAX_YEAR
    &&& 1 <= m <= 12
    &&& 1 <= d <= days_in_month(y, m)
}

impl DateTime {
    pub open spec fn wf(&self) -> bool {
        &&& valid_date(self.year as int, self.month as int, self.day as int)
        &&& self.hour < 24
        &&& self.minute < 60
        &&& self.second < 60
        &&& self.nanosecond < 2_000_000_000
    }

    /// Days are numbered in calendar order.
    pub open spec fn day_number(&self) -> nat {
        day_number_of(self.year, self.month, self.day)
    }

    /// Instants are numbered in chronological order.
    pub open spec fn instant(&self) -> nat {
        ((((self.day_number() * 24 + self.hour) * 60 + self.minute) * 60 + self.second)
            * 2_000_000_000 + self.nanosecond) as nat
    }

    pub open spec fn month_number(&self) -> nat {
        month_number_of(self.year, self.month)
    }

    /// The date at midnight.
    pub open spec fn midnight(y: i32, m: u32, d: u32) -> DateTime {
        DateTime { year: y, month: m, day: d, hour: 0, minute: 0, second: 0, nanosecond: 0 }
    }
}

/// Offset that makes every `i32` year non-negative.
pub const YEAR_OFFSET: u64 = 0x8000_0000;

pub open spec fn month_number_of(y: i32, m: u32) -> nat {
    ((y + YEAR_OFFSET) * 16 + m) as nat
}

pub open spec fn day_number_of(y: i32, m: u32, d: u32) -> nat {
    (month_number_of(y, m) * 32 + d) as nat
}

pub fn month_number(dt: &DateTime) -> (r: u64)
    requires
        dt.wf(),
    ensures
        r == dt.month_number(),
        r < 0x10_0000_0000,
{
    ((dt.year as i64 + YEAR_OFFSET as i64) as u64) * 16 + dt.month as u64
}

pub fn day_number(dt: &DateTime) -> (r: u64)
    requires
        dt.wf(),
    ensures
        r == dt.day_number(),
        r < 0x200_0000_0000,
{
    month_number(dt) * 32 + dt.day as u64
}

pub fn instant(dt: &DateTime) -> (r: u128)
    requires
        dt.wf(),
    ensures
        r == dt.instant(),
{
    let d = day_number(dt) as u128;
    (((d * 24 + dt.hour as u128) * 60 + dt.minute as u128) * 60 + dt.second as u128) * 2_000_000_000
        + dt.nanosecond as u128
}

/// What `str::trim` leaves of a text.
pub uninterp spec fn trimmed(s: Seq<char>) -> Seq<char>;

/// What `NaiveDate::parse_from_str(s, fmt)` reads, as (year, month, day).
pub uninterp spec fn naive_date_parse(s: Seq<char>, fmt: Seq<char>) -> Option<(i32, u32, u32)>;

/// What `NaiveDateTime::parse_from_str(s, fmt)` reads.
pub uninterp spec fn naive_date_time_parse(s: Seq<char>, fmt: Seq<char>) -> Option<DateTime>;

/// ISO week-year and week number of a date, as chrono's `iso_week` gives them.
pub uninterp spec fn iso_week_of(y: i32, m: u32, d: u32) -> (i32, u32);

/// Days since Monday of a date, as chrono's `weekday` gives it.
pub uninterp spec fn weekday_of(y: i32, m: u32, d: u32) -> u32;

/// Relies on `str::trim`: leading and trailing whitespace removed.
#[verifier::external_body]
fn trim_text(s: &str) -> (r: &str)
    ensures
        r@ == trimmed(s@),
{
    s.trim()
}

/// Relies on chrono's `NaiveDate::parse_from_str`; a `NaiveDate` is always a
/// valid calendar date in chrono's range.
#[verifier::external_body]
fn parse_date_with(s: &str, fmt: &str) -> (r: Option<DateTime>)
    ensures
        r == (match naive_date_parse(s@, fmt@) {
            Some((y, m, d)) => Some(DateTime::midnight(y, m, d)),
            None => None,
        }),
        r matches Some(dt) ==> dt.wf(),
{
    chrono::NaiveDate::parse_from_str(s, fmt).ok().map(|d| DateTime {
        year: d.year(),
        month: d.month(),
        day: d.day(),
        hour: 0,
        minute: 0,
        second: 0,
        nanosecond: 0,
    })
}

/// Relies on chrono's `NaiveDateTime::parse_from_str`, and on the ranges that
/// chrono documents for the fields of the value it returns.
#[verifier::external_body]
fn parse_date_time_with(s: &str, fmt: &str) -> (r: Option<DateTime>)
    ensures
        r == naive_date_time_parse(s@, fmt@),
        r matches Some(dt) ==> dt.wf(),
{
    chrono::NaiveDateTime::parse_from_str(s, fmt).ok().map(|t| DateTime {
        year: t.year(),
        month: t.month(),
        day: t.day(),
        hour: t.hour(),
        minute: t.minute(),
        second: t.second(),
        nanosecond: t.nanosecond(),
    })
}

/// Relies on chrono's `NaiveDate::from_ymd_opt` (a value exactly for the valid
/// dates in its range) and `iso_week` (weeks numbered 1 to 53).
#[verifier::external_body]
pub(crate) fn iso_week(y: i32, m: u32, d: u32) -> (r: Option<(i32, u32)>)
    ensures
        r is Some <==> valid_date(y as int, m as int, d as int),
        r matches Some(w) ==> w == iso_week_of(y, m, d) && 1 <= w.1 <= 53,
{
    chrono::NaiveDate::from_ymd_opt(y, m, d).map(|x| (x.iso_week().year(), x.iso_week().week()))
}

/// Relies on chrono's `NaiveDate::from_ymd_opt` and `weekday`, numbered by
/// `num_days_from_monday` (Monday 0 to Sunday 6).
#[verifier::external_body]
pub(crate) fn weekday(y: i32, m: u32, d: u32) -> (r: Option<u32>)
    ensures
        r is Some <==> valid_date(y as int, m as int, d as int),
        r matches Some(w) ==> w == weekday_of(y, m, d) && w < 7,
{
    chrono::NaiveDate::from_ymd_opt(y, m, d).map(|x| x.weekday().num_days_from_monday())
}

/// The value of a timestamp: its reading, which chrono always makes a valid
/// date-time.
pub open spec fn timestamp_value(ts: Seq<char>) -> Option<DateTime> {
    match timestamp_reading(ts) {
        Some(dt) => if dt.wf() { Some(dt) } else { None },
        None => None,
    }
}

pub proof fn lemma_timestamp_value_wf(ts: Seq<char>)
    ensures
        timestamp_value(ts) matches Some(dt) ==> dt.wf(),
{
}

/// A timestamp's trimmed text read by the first form that accepts it,
/// date-only forms first.
pub open spec fn timestamp_reading(ts: Seq<char>) -> Option<DateTime> {
    let s = trimmed(ts);
    let date_form = |fmt: Seq<char>|
        match naive_date_parse(s, fmt) {
            Some((y, m, d)) => Some(DateTime::midnight(y, m, d)),
            None => None,
        };
    if date_form("%Y-%m-%d"@) is Some {
        date_form("%Y-%m-%d"@)
    } else if date_form("%Y.%m.%d"@) is Some {
        date_form("%Y.%m.%d"@)
    } else if naive_date_time_parse(s, "%Y.%m.%dT%H:%M:%S"@) is Some {
        naive_date_time_parse(s, "%Y.%m.%dT%H:%M:%S"@)
    } else if naive_date_time_parse(s, "%Y-%m-%dT%H:%M:%S%.f"@) is Some {
        naive_date_time_parse(s, "%Y-%m-%dT%H:%M:%S%.f"@)
    } else if naive_date_time_parse(s, "%Y-%m-%d %H:%M:%S%.f"@) is Some {
        naive_date_time_parse(s, "%Y-%m-%d %H:%M:%S%.f"@)
    } else if naive_date_time_parse(s, "%Y-%m-%dT%H:%M:%S"@) is Some {
        naive_date_time_parse(s, "%Y-%m-%dT%H:%M:%S"@)
    } else if naive_date_time_parse(s, "%Y-%m-%d %H:%M:%S"@) is Some {
        naive_date_time_parse(s, "%Y-%m-%d %H:%M:%S"@)
    } else if naive_date_time_parse(s, "%Y-%m-%dT%H:%M"@) is Some {
        naive_date_time_parse(s, "%Y-%m-%dT%H:%M"@)
    } else {
        naive_date_time_parse(s, "%Y-%m-%d %H:%M"@)
    }
}

/// Reads a timestamp in any of the accepted forms; `None` when none accepts it.
pub fn parse_ts_to_naive(ts: &str) -> (r: Option<DateTime>)
    ensures
        r == timestamp_value(ts@),
        r matches Some(dt) ==> dt.wf(),
{
    let s = trim_text(ts);
    let r = parse_date_with(s, "%Y-%m-%d");
    if r.is_some() {
        return r;
    }
    let r = parse_date_with(s, "%Y.%m.%d");
    if r.is_some() {
        return r;
    }
    let r = parse_date_time_with(s, "%Y.%m.%dT%H:%M:%S");
    if r.is_some() {
        return r;
    }
    let r = parse_date_time_with(s, "%Y-%m-%dT%H:%M:%S%.f");
    if r.is_some() {
        return r;
    }
    let r = parse_date_time_with(s, "%Y-%m-%d %H:%M:%S%.f");
    if r.is_some() {
        return r;
    }
    let r = parse_date_time_with(s, "%Y-%m-%dT%H:%M:%S");
    if r.is_some() {
        return r;
    }
    let r = parse_date_time_with(s, "%Y-%m-%d %H:%M:%S");
    if r.is_some() {
        return r;
    }
    let r = parse_date_time_with(s, "%Y-%m-%dT%H:%M");
    if r.is_some() {
        return r;
    }
    parse_date_time_with(s, "%Y-%m-%d %H:%M")
}

/// Year, month and day of a day number.
pub open spec fn day_year(n: u64) -> int {
    n / 512 - YEAR_OFFSET
}

pub open spec fn day_month(n: u64) -> nat {
    ((n / 32) % 16) as nat
}

pub open spec fn day_day(n: u64) -> nat {
    (n % 32) as nat
}

/// Year and month of a month number.
pub open spec fn month_year(n: u64) -> int {
    n / 16 - YEAR_OFFSET
}

pub open spec fn month_month(n: u64) -> nat {
    (n % 16) as nat
}

/// A day number reads back as the date it was made from.
pub proof fn lemma_day_number_decodes(dt: DateTime)
    requires
        dt.wf(),
    ensures
        dt.day_number() < 0x1_0000_0000_0000_0000,
        day_year(dt.day_number() as u64) == dt.year,
        day_month(dt.day_number() as u64) == dt.month,
        day_day(dt.day_number() as u64) == dt.day,
{
    let mn = month_number_of(dt.year, dt.month) as int;
    let n = dt.day_number() as int;
    assert(n == mn * 32 + dt.day);
    vstd::arithmetic::div_mod::lemma_fundamental_div_mod_converse(n, 32, mn, dt.day as int);
    let y = (dt.year + YEAR_OFFSET) as int;
    assert(mn == y * 16 + dt.month);
    vstd::arithmetic::div_mod::lemma_fundamental_div_mod_converse(mn, 16, y, dt.month as int);
    assert(n / 512 == y) by {
        vstd::arithmetic::div_mod::lemma_div_denominator(n, 32, 16);
    }
}

} // verus!
