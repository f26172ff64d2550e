//! Points in time.
use vstd::prelude::*;

verus! {

/// A point in time: whole seconds since 1970 in UTC, and nanoseconds on top.
#[derive(Clone, Copy, Debug, PartialEq, Eq, Structural)]
pub struct Timestamp {
    pub secs: i64,
    pub nanos: u32,
}

impl DeepView for Timestamp {
    type V = Timestamp;

    open spec fn deep_view(&self) -> Timestamp {
        *self
    }
}

/// Whether `a` lies before `b`.
pub open spec fn earlier(a: Timestamp, b: Timestamp) -> bool {
    a.secs < b.secs || (a.secs == b.secs && a.nanos < b.nanos)
}

impl Timestamp {
    /// Whether this point lies before `other`.
    pub fn is_before(&self, other: &Timestamp) -> (r: bool)
        ensures
            r == earlier(*self, *other),
    {
        self.secs < other.secs || (self.secs == other.secs && self.nanos < other.nanos)
    }
}

/// The later of two points; a point that is missing lies before every other.
pub open spec fn later_of(a: Option<Timestamp>, b: Option<Timestamp>) -> Option<Timestamp> {
    match (a, b) {
        (Some(x), Some(y)) => if earlier(x, y) {
            b
        } else {
            a
        },
        (Some(_), None) => a,
        (None, _) => b,
    }
}

pub fn later(a: Option<Timestamp>, b: Option<Timestamp>) -> (r: Option<Timestamp>)
    ensures
        r == later_of(a, b),
{
    match a {
        Some(x) => match b {
            Some(y) => if x.is_before(&y) {
                b
            } else {
                a
            },
            None => a,
        },
        None => b,
    }
}

/// What is left of `n` when as many whole multiples of `by` as fit below it are taken away.
pub fn remainder(n: i64, by: i64) -> (r: i64)
    requires
        by > 0,
    ensures
        r == n as int % by as int,
        0 <= r < by,
{
    match n.checked_rem_euclid(by) {
        Some(r) => r,
        None => 0,
    }
}

/// The second of the day, in UTC.
pub open spec fn second_of_day(t: Timestamp) -> int {
    t.secs as int % 86_400
}

/// The nanoseconds from `from` to `to`. A leap second counts once it is over: one at the point that
/// is earlier in its day.
pub open spec fn span(from: Timestamp, to: Timestamp) -> int {
    let leap: int = if second_of_day(to) > second_of_day(from) && from.nanos >= 1_000_000_000 {
        1
    } else if second_of_day(to) < second_of_day(from) && to.nanos >= 1_000_000_000 {
        -1
    } else {
        0
    };
    (to.secs - from.secs + leap) * 1_000_000_000 + (to.nanos - from.nanos)
}

/// The nanoseconds from `from` to `to`.
pub fn nanos_between(from: Timestamp, to: Timestamp) -> (r: i128)
    ensures
        r == span(from, to),
{
    let a: i64 = remainder(from.secs, 86_400);
    let b: i64 = remainder(to.secs, 86_400);
    let leap: i128 = if b > a && from.nanos >= 1_000_000_000 {
        1
    } else if b < a && to.nanos >= 1_000_000_000 {
        -1
    } else {
        0
    };
    (to.secs as i128 - from.secs as i128 + leap) * 1_000_000_000 + (to.nanos as i128
        - from.nanos as i128)
}

/// The second that is `n` whole seconds after `t`, or before it. A leap second counts as the second
/// that it belongs to on the way on, and as the next one on the way back.
pub open spec fn shifted_secs(t: Timestamp, n: int) -> int {
    if n < 0 && t.nanos >= 1_000_000_000 {
        t.secs + 1 + n
    } else {
        t.secs + n
    }
}

/// The point `n` whole seconds after `t`, or before it; it is in no leap second unless it is `t`.
pub open spec fn shifted(t: Timestamp, n: int) -> Timestamp {
    Timestamp {
        secs: shifted_secs(t, n) as i64,
        nanos: if n == 0 || t.nanos < 1_000_000_000 {
            t.nanos
        } else {
            (t.nanos - 1_000_000_000) as u32
        },
    }
}

/// The point `n` whole seconds after `t`, or before it.
pub fn shift(t: Timestamp, n: i64) -> (r: Timestamp)
    requires
        i64::MIN <= t.secs + n < i64::MAX,
    ensures
        r == shifted(t, n as int),
{
    if n == 0 || t.nanos < 1_000_000_000 {
        Timestamp { secs: t.secs + n, nanos: t.nanos }
    } else if n > 0 {
        Timestamp { secs: t.secs + n, nanos: t.nanos - 1_000_000_000 }
    } else {
        Timestamp { secs: t.secs + n + 1, nanos: t.nanos - 1_000_000_000 }
    }
}

// ---------------------------------------------------------------------------------------------
// The calendar
// ---------------------------------------------------------------------------------------------
/// The first and the last second of the years that the calendar covers.
pub const FIRST_SECOND: i64 = -8_334_601_228_800;

pub const LAST_SECOND: i64 = 8_210_266_876_799;

/// Whether the calendar covers a point in time. A second that is the last of its minute may be a
/// leap second, which runs twice as long.
pub open spec fn in_calendar(t: Timestamp) -> bool {
    &&& FIRST_SECOND <= t.secs <= LAST_SECOND
    &&& t.nanos < 1_000_000_000 || (t.nanos < 2_000_000_000 && t.secs % 60 == 59)
}

/// The whole second `secs`, where the calendar covers it.
pub open spec fn second_of(secs: i64) -> Option<Timestamp> {
    if FIRST_SECOND <= secs <= LAST_SECOND {
        Some(Timestamp { secs, nanos: 0 })
    } else {
        None
    }
}

pub fn at_second(secs: i64) -> (r: Option<Timestamp>)
    ensures
        r == second_of(secs),
{
    if FIRST_SECOND <= secs && secs <= LAST_SECOND {
        Some(Timestamp { secs, nanos: 0 })
    } else {
        None
    }
}

/// The point in time that `chrono::DateTime::parse_from_rfc3339` reads from a text.
pub uninterp spec fn rfc3339_instant(text: Seq<char>) -> Option<Timestamp>;

/// `chrono::DateTime::parse_from_rfc3339`: the point in time that a text writes, if it does. The
/// outcome depends on the text alone.
#[verifier::external_body]
pub(crate) fn parse_rfc3339(text: &str) -> (r: Option<Timestamp>)
    ensures
        r == rfc3339_instant(text@),
{
    chrono::DateTime::parse_from_rfc3339(text).ok().map(
        |t| Timestamp { secs: t.timestamp(), nanos: t.timestamp_subsec_nanos() },
    )
}

impl Timestamp {
    /// The point in time that a text writes in the form of RFC 3339, if it does.
    pub fn from_rfc3339(text: &str) -> (r: Option<Timestamp>)
        ensures
            r == rfc3339_instant(text@),
    {
        parse_rfc3339(text)
    }
}

/// What `chrono::DateTime::to_rfc3339` writes for a point in time in UTC.
pub uninterp spec fn rfc3339_of(secs: i64, nanos: u32) -> Option<Seq<char>>;

/// `chrono::DateTime::to_rfc3339` in UTC: the text for a point in time, which there is where the
/// calendar covers it. The text depends on the point in time alone.
#[verifier::external_body]
pub(crate) fn write_rfc3339(t: Timestamp) -> (r: Option<String>)
    ensures
        r.deep_view() == rfc3339_of(t.secs, t.nanos),
        r is Some <==> in_calendar(t),
{
    chrono::DateTime::from_timestamp(t.secs, t.nanos).map(|d| d.to_rfc3339())
}

/// What `chrono::NaiveDate` writes for the day of a point in time in UTC.
pub uninterp spec fn date_of(secs: i64, nanos: u32) -> Option<Seq<char>>;

/// `chrono::DateTime::date_naive` in UTC, written as text: the day of a point in time, which there is
/// where the calendar covers it. The text depends on the point in time alone.
#[verifier::external_body]
pub(crate) fn write_date(t: Timestamp) -> (r: Option<String>)
    ensures
        r.deep_view() == date_of(t.secs, t.nanos),
        r is Some <==> in_calendar(t),
{
    chrono::DateTime::from_timestamp(t.secs, t.nanos).map(|d| d.date_naive().to_string())
}

/// What `chrono::DateTime::format` writes for a point in time in UTC and the pattern
/// `%Y%m%dT%H%M%SZ`.
pub uninterp spec fn stamp_of(secs: i64, nanos: u32) -> Option<Seq<char>>;

/// `chrono::DateTime::format` in UTC with the pattern `%Y%m%dT%H%M%SZ`: a text for a point in time,
/// which there is where the calendar covers it. The text depends on the point in time alone.
#[verifier::external_body]
pub(crate) fn write_stamp(t: Timestamp) -> (r: Option<String>)
    ensures
        r.deep_view() == stamp_of(t.secs, t.nanos),
        r is Some <==> in_calendar(t),
{
    chrono::DateTime::from_timestamp(t.secs, t.nanos).map(
        |d| d.format("%Y%m%dT%H%M%SZ").to_string(),
    )
}

/// The year and the month that `chrono::Datelike` gives for a point in time in UTC.
pub uninterp spec fn year_month_of(secs: i64, nanos: u32) -> Option<(i32, u32)>;

/// `chrono::Datelike::year` and `month` in UTC: the year and the month of a point in time, which
/// there are where the calendar covers it. They depend on the point in time alone; a month is a
/// number from 1 to 12, and a year lies within the years that the calendar covers.
#[verifier::external_body]
pub(crate) fn year_and_month(t: Timestamp) -> (r: Option<(i32, u32)>)
    ensures
        r == year_month_of(t.secs, t.nanos),
        r is Some <==> in_calendar(t),
        r matches Some((year, month)) ==> -262_143 <= year <= 262_142 && 1 <= month <= 12,
{
    chrono::DateTime::from_timestamp(t.secs, t.nanos).map(
        |d| (chrono::Datelike::year(&d), chrono::Datelike::month(&d)),
    )
}

/// The second at which `chrono::TimeZone::with_ymd_and_hms` puts the start of a month in UTC.
pub uninterp spec fn month_start_of(year: i32, month: u32) -> Option<i64>;

/// `chrono::TimeZone::with_ymd_and_hms` in UTC for the first day of a month at midnight: the second
/// at which the month starts, where there is such a month. It depends on the year and the month
/// alone.
#[verifier::external_body]
pub(crate) fn month_start(year: i32, month: u32) -> (r: Option<i64>)
    ensures
        r == month_start_of(year, month),
{
    chrono::TimeZone::with_ymd_and_hms(&chrono::Utc, year, month, 1, 0, 0, 0).single().map(
        |d| d.timestamp(),
    )
}

} // verus!
