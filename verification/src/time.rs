//! Calendar dates and UTC instants, held as the plain numbers that the wire
//! format carries, together with the range in which each can be represented.

use vstd::prelude::*;
use chrono::{DateTime, NaiveDate};

verus! {

/// Days between 1970-01-01 and the first representable date, which is the
/// first of January of the proleptic Gregorian year -262143.
pub const MIN_EPOCH_DAYS: i32 = -96_465_292;

/// Days between 1970-01-01 and the last representable date, which is the
/// last of December of the year 262142.
pub const MAX_EPOCH_DAYS: i32 = 95_026_236;

/// Seconds in a day that has no leap second.
pub const SECONDS_PER_DAY: i64 = 86_400;

/// The first nanosecond count that no instant can carry, leap second included.
pub const NANOS_LIMIT: u32 = 2_000_000_000;

/// Nanoseconds in a second; a count from here on marks a leap second.
pub const NANOS_PER_SECOND: u32 = 1_000_000_000;

/// Whether a date that many days after 1970-01-01 (before it, where `days`
/// is negative) can be represented.
pub open spec fn date_in_range(days: int) -> bool {
    MIN_EPOCH_DAYS <= days <= MAX_EPOCH_DAYS
}

/// Whether an instant that many seconds after 1970-01-01T00:00:00Z falls on a
/// representable date.
pub open spec fn seconds_in_range(secs: int) -> bool {
    date_in_range(secs / (SECONDS_PER_DAY as int))
}

/// Whether a nanosecond count may accompany the given second: below one
/// second always, and from one second up to two only in the last second of a
/// minute, where it denotes a leap second.
pub open spec fn nanos_allowed(secs: int, nanos: int) -> bool {
    &&& 0 <= nanos < NANOS_LIMIT
    &&& nanos >= NANOS_PER_SECOND ==> secs % 60 == 59
}

/// Whether seconds and nanoseconds together denote a representable instant.
pub open spec fn instant_in_range(secs: int, nanos: int) -> bool {
    seconds_in_range(secs) && nanos_allowed(secs, nanos)
}

/// The range of representable seconds, written out: the first second of the
/// first representable day up to the last second of the last one.
pub proof fn lemma_seconds_in_range_bounds(secs: int)
    ensures
        seconds_in_range(secs) <==> -8_334_601_228_800 <= secs <= 8_210_266_876_799,
{
}

/// `chrono::NaiveDate::from_epoch_days` followed by
/// `chrono::NaiveDate::to_epoch_days`: the first yields a date exactly when
/// the day count lies between those of `NaiveDate::MIN` and `NaiveDate::MAX`,
/// and the second counts that date's days since 1970-01-01 again, which
/// gives the argument back.
#[verifier::external_body]
fn chrono_epoch_days(days: i32) -> (r: Option<i32>)
    ensures
        r == (if date_in_range(days as int) { Some(days) } else { None }),
{
    match NaiveDate::from_epoch_days(days) {
        Some(date) => Some(date.to_epoch_days()),
        None => None,
    }
}

/// `chrono::DateTime::from_timestamp`, read back with
/// `DateTime::timestamp` and `DateTime::timestamp_subsec_nanos`: the first
/// yields an instant exactly when the seconds fall on a representable date
/// and the nanoseconds are below two seconds, reaching one second only in
/// the last second of a minute; the other two return the numbers it was
/// made from.
#[verifier::external_body]
fn chrono_timestamp(secs: i64, nanos: u32) -> (r: Option<(i64, u32)>)
    ensures
        r == (if instant_in_range(secs as int, nanos as int) {
            Some((secs, nanos))
        } else {
            None
        }),
{
    match DateTime::from_timestamp(secs, nanos) {
        Some(instant) => Some((instant.timestamp(), instant.timestamp_subsec_nanos())),
        None => None,
    }
}

/// A calendar date, counted in days from 1970-01-01.
#[derive(Copy, Clone, Debug, PartialEq, Eq, Hash)]
pub struct CalendarDate {
    days: i32,
}

impl View for CalendarDate {
    type V = int;

    /// The days since 1970-01-01.
    closed spec fn view(&self) -> int {
        self.days as int
    }
}

impl CalendarDate {
    /// A date is well formed when it can be represented.
    pub open spec fn wf(self) -> bool {
        date_in_range(self@)
    }

    /// The date that many days after 1970-01-01, if it can be represented.
    pub fn from_days_since_epoch(days: i32) -> (r: Option<CalendarDate>)
        ensures
            r is Some <==> date_in_range(days as int),
            r matches Some(date) ==> date@ == days && date.wf(),
    {
        match chrono_epoch_days(days) {
            Some(d) => Some(CalendarDate { days: d }),
            None => None,
        }
    }

    /// The days from 1970-01-01 to this date.
    pub fn days_since_epoch(&self) -> (r: i32)
        ensures
            r == self@,
    {
        self.days
    }

    /// Two dates with the same day count are the same date.
    pub proof fn lemma_view_injective(a: CalendarDate, b: CalendarDate)
        requires
            a@ == b@,
        ensures
            a == b,
    {
    }
}

/// An instant in UTC: whole seconds since 1970-01-01T00:00:00Z, and
/// nanoseconds since the last whole second.
#[derive(Copy, Clone, Debug, PartialEq, Eq, Hash)]
pub struct Timestamp {
    secs: i64,
    nanos: u32,
}

/// What a `Timestamp` stands for.
pub ghost struct Instant {
    pub secs: int,
    pub nanos: int,
}

impl View for Timestamp {
    type V = Instant;

    closed spec fn view(&self) -> Instant {
        Instant { secs: self.secs as int, nanos: self.nanos as int }
    }
}

impl Timestamp {
    /// An instant is well formed when it can be represented.
    pub open spec fn wf(self) -> bool {
        instant_in_range(self@.secs, self@.nanos)
    }

    /// Whether the instant falls on a whole second.
    pub open spec fn is_whole_second(self) -> bool {
        self@.nanos == 0
    }

    /// The instant made of these seconds and nanoseconds, if it can be
    /// represented.
    pub fn new(secs: i64, nanos: u32) -> (r: Option<Timestamp>)
        ensures
            r is Some <==> instant_in_range(secs as int, nanos as int),
            r matches Some(t) ==> t@ == (Instant { secs: secs as int, nanos: nanos as int })
                && t.wf(),
    {
        match chrono_timestamp(secs, nanos) {
            Some((s, n)) => Some(Timestamp { secs: s, nanos: n }),
            None => None,
        }
    }

    /// The instant at a whole second, if it can be represented: from the
    /// first second of the first representable day to the last second of the
    /// last one.
    pub fn from_secs(secs: i64) -> (r: Option<Timestamp>)
        ensures
            r is Some <==> seconds_in_range(secs as int),
            r is Some <==> -8_334_601_228_800 <= secs <= 8_210_266_876_799,
            r matches Some(t) ==> t@ == (Instant { secs: secs as int, nanos: 0 }) && t.wf(),
    {
        proof {
            lemma_seconds_in_range_bounds(secs as int);
        }
        Timestamp::new(secs, 0)
    }

    /// Whole seconds since 1970-01-01T00:00:00Z; what lies below a second is
    /// left out.
    pub fn timestamp(&self) -> (r: i64)
        ensures
            r == self@.secs,
    {
        self.secs
    }

    /// Nanoseconds since the last whole second.
    pub fn timestamp_subsec_nanos(&self) -> (r: u32)
        ensures
            r == self@.nanos,
    {
        self.nanos
    }

    /// Two instants with the same seconds and nanoseconds are the same.
    pub proof fn lemma_view_injective(a: Timestamp, b: Timestamp)
        requires
            a@ == b@,
        ensures
            a == b,
    {
    }
}

} // verus!
