//! Calendar dates and instants as plain numbers.
//!
//! The clock is read through `chrono`; everything else here is arithmetic on
//! the numbers.

use chrono::Datelike;
use vstd::prelude::*;

verus! {

/// A calendar date.
#[derive(Clone, Copy, Debug, PartialEq, Eq, Structural)]
pub struct Date {
    pub year: i32,
    /// 1 to 12.
    pub month: u32,
    /// 1 to 31.
    pub day: u32,
}

/// An instant without a time zone, in microseconds since 1970-01-01 00:00.
#[derive(Clone, Copy, Debug, PartialEq, Eq, Structural)]
pub struct Timestamp {
    pub micros: i64,
}

impl Date {
    /// Whether month and day are in the range of a calendar.
    pub open spec fn wf(self) -> bool {
        1 <= self.month <= 12 && 1 <= self.day <= 31
    }

    /// The number by which dates are ordered. Among dates of a calendar a
    /// later date has a larger number.
    pub open spec fn key(self) -> int {
        (self.year * 16 + self.month) * 32 + self.day
    }

    /// The number by which dates are ordered.
    pub fn ordinal(&self) -> (k: i64)
        ensures
            k == self.key(),
    {
        let y: i64 = self.year as i64;
        let m: i64 = self.month as i64;
        let d: i64 = self.day as i64;
        (y * 16 + m) * 32 + d
    }

    /// Whether this date is `other` or later.
    pub fn on_or_after(&self, other: &Date) -> (r: bool)
        ensures
            r == (self.key() >= other.key()),
    {
        self.ordinal() >= other.ordinal()
    }

    /// Whether this date lies in the range from `start` to `end`, both
    /// included.
    pub fn within(&self, start: &Date, end: &Date) -> (r: bool)
        ensures
            r == (start.key() <= self.key() <= end.key()),
    {
        self.on_or_after(start) && end.on_or_after(self)
    }

    /// Among dates of a calendar the order by `key` is the order by year,
    /// then month, then day.
    pub proof fn lemma_key_is_calendar_order(self, other: Date)
        requires
            self.wf(),
            other.wf(),
        ensures
            self.key() < other.key() <==> (self.year < other.year || (self.year == other.year && (
            self.month < other.month || (self.month == other.month && self.day < other.day)))),
            self.key() == other.key() <==> self == other,
    {
    }
}

/// Reads today's date, in the machine's time zone, from
/// `chrono::Local::now()`. Which date comes back depends on the clock; its
/// month and day are those of a calendar.
#[verifier::external_body]
pub(crate) fn local_today() -> (d: Date)
    ensures
        d.wf(),
{
    let today = chrono::Local::now().date_naive();
    Date { year: today.year(), month: today.month(), day: today.day() }
}

/// Reads the present instant from `chrono::Utc::now()`. Nothing is promised
/// of it.
#[verifier::external_body]
pub(crate) fn utc_now() -> Timestamp {
    Timestamp { micros: chrono::Utc::now().timestamp_micros() }
}

} // verus!
