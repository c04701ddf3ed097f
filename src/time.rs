//! Points in time on the local wall clock, counted in nanoseconds.

use vstd::prelude::*;

verus! {

pub const NANOS_PER_SECOND: i64 = 1_000_000_000;

pub const NANOS_PER_DAY: i64 = 86_400_000_000_000;

/// The ISO 8601 week number (1 to 53) of the calendar day on which the local
/// wall-clock instant `nanos` (nanoseconds after 1970-01-01 00:00) falls.
pub uninterp spec fn iso_week_of(nanos: i64) -> u32;

/// Day of the week of a local instant, Monday = 0 through Sunday = 6.
/// Day zero of the count, 1970-01-01, was a Thursday.
pub open spec fn weekday_of(nanos: i64) -> int {
    (nanos as int / NANOS_PER_DAY as int + 3) % 7
}

/// A local wall-clock instant, together with the ISO week it falls in.
///
/// `nanos` counts nanoseconds after 1970-01-01 00:00 on the local clock (the
/// clock's reading, not UTC), so calendar questions are answered as if the
/// reading were a UTC instant.  `week` is carried along because the fold over
/// a sheet compares week numbers; [`Timestamp::at`] fills it in.
#[derive(Clone, Copy, Debug, PartialEq, Eq, Structural)]
pub struct Timestamp {
    pub nanos: i64,
    pub week: u32,
}

impl Timestamp {
    /// The week number agrees with the instant.
    pub open spec fn wf(self) -> bool {
        self.week == iso_week_of(self.nanos)
    }

    pub open spec fn weekday_spec(self) -> int {
        weekday_of(self.nanos)
    }

    /// The timestamp of the local instant `nanos`.
    pub fn at(nanos: i64) -> (r: Timestamp)
        ensures
            r.nanos == nanos,
            r.wf(),
    {
        Timestamp { nanos, week: iso_week_number(nanos) }
    }

    /// Day of the week, Monday = 0 through Sunday = 6.
    pub fn weekday(&self) -> (r: usize)
        ensures
            r == self.weekday_spec(),
            r < 7,
    {
        day_of_week(self.nanos)
    }
}

/// Relies on chrono's `DateTime::<Utc>::from_timestamp_nanos`, which is total
/// on `i64`, and on `Datelike::iso_week` with `IsoWeek::week`: the ISO week
/// number depends on the calendar date alone.
#[verifier::external_body]
fn iso_week_number(nanos: i64) -> (r: u32)
    ensures
        r == iso_week_of(nanos),
{
    chrono::Datelike::iso_week(&chrono::DateTime::from_timestamp_nanos(nanos)).week()
}

/// Relies on chrono's `DateTime::<Utc>::from_timestamp_nanos`, which splits
/// the count with `div_euclid` into whole days after 1970-01-01, and on
/// `Datelike::weekday` with `Weekday::num_days_from_monday`.
#[verifier::external_body]
fn day_of_week(nanos: i64) -> (r: usize)
    ensures
        r == weekday_of(nanos),
{
    chrono::Datelike::weekday(&chrono::DateTime::from_timestamp_nanos(nanos)).num_days_from_monday() as usize
}

/// The length, in nanoseconds, of the duration written in `text` ("30m",
/// "1h 15min"), or `None` where the text is not a duration.
pub uninterp spec fn duration_nanos(text: Seq<char>) -> Option<u128>;

/// Relies on `parse_duration::parse`, whose result depends on the text alone;
/// `Duration::as_nanos` gives the whole length in nanoseconds.
#[verifier::external_body]
pub(crate) fn parse_duration_nanos(text: &str) -> (r: Option<u128>)
    ensures
        r == duration_nanos(text@),
{
    match parse_duration::parse(text) {
        Ok(d) => Some(d.as_nanos()),
        Err(_) => None,
    }
}

} // verus!
