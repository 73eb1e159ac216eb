use vstd::prelude::*;

use crate::error::Error;

verus! {

/// A point in time: seconds since the Unix epoch and a sub-second part.
#[derive(Clone, Copy, Debug, PartialEq, Eq, Structural)]
pub struct Timestamp {
    pub seconds: i64,
    pub nanos: i32,
}

/// A half-open window `[start, end)`.
#[derive(Clone, Copy, Debug, PartialEq, Eq, Structural)]
pub struct TimeRange {
    pub start: Timestamp,
    pub end: Timestamp,
}

/// Timestamps are ordered by seconds, then by the sub-second part.
pub open spec fn precedes(a: Timestamp, b: Timestamp) -> bool {
    a.seconds < b.seconds || (a.seconds == b.seconds && a.nanos < b.nanos)
}

/// Two half-open windows share an instant: touching endpoints do not count.
pub open spec fn ranges_overlap(a: TimeRange, b: TimeRange) -> bool {
    precedes(a.start, b.end) && precedes(b.start, a.end)
}

/// A window with both endpoints present and its start strictly first.
pub open spec fn valid_window(start: Option<Timestamp>, end: Option<Timestamp>) -> bool {
    start is Some && end is Some && precedes(start->0, end->0)
}

impl Timestamp {
    pub fn new(seconds: i64, nanos: i32) -> (r: Timestamp)
        ensures
            r.seconds == seconds,
            r.nanos == nanos,
    {
        Timestamp { seconds, nanos }
    }

    /// Whether `self` comes strictly before `other`.
    pub fn is_before(&self, other: &Timestamp) -> (r: bool)
        ensures
            r == precedes(*self, *other),
    {
        self.seconds < other.seconds || (self.seconds == other.seconds && self.nanos < other.nanos)
    }
}

impl TimeRange {
    /// Whether the two half-open windows overlap.
    pub fn overlaps(&self, other: &TimeRange) -> (r: bool)
        ensures
            r == ranges_overlap(*self, *other),
    {
        self.start.is_before(&other.end) && other.start.is_before(&self.end)
    }
}

/// Checks that both endpoints are present and that the start comes first.
pub fn validate_range(start: Option<Timestamp>, end: Option<Timestamp>) -> (r: Result<(), Error>)
    ensures
        r is Ok <==> valid_window(start, end),
        r is Err ==> r == Err::<(), Error>(Error::InvalidTime),
{
    match (start, end) {
        (Some(s), Some(e)) => {
            if s.is_before(&e) {
                Ok(())
            } else {
                Err(Error::InvalidTime)
            }
        },
        _ => Err(Error::InvalidTime),
    }
}

/// The half-open window `[start, end)` of two validated endpoints.
pub fn get_timespan(start: Option<Timestamp>, end: Option<Timestamp>) -> (r: TimeRange)
    requires
        start is Some,
        end is Some,
    ensures
        r.start == start->0,
        r.end == end->0,
{
    TimeRange { start: start.unwrap(), end: end.unwrap() }
}

} // verus!
