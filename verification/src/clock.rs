//! Instants on the UTC time line.

use vstd::prelude::*;

verus! {

/// Seconds in one UTC calendar day.
pub const SECONDS_PER_DAY: i64 = 86_400;

/// An instant: whole seconds since 1970-01-01T00:00:00Z and the nanoseconds into that second.
#[derive(Clone, Copy, Debug, PartialEq, Eq, Structural)]
pub struct Timestamp {
    pub secs: i64,
    pub nanos: u32,
}

/// The number of the UTC calendar day an instant falls on, counted from 1970-01-01.
pub open spec fn day_number(t: Timestamp) -> int {
    t.secs as int / SECONDS_PER_DAY as int
}

/// Whether `a` lies strictly before `b` on the time line.
pub open spec fn precedes(a: Timestamp, b: Timestamp) -> bool {
    a.secs < b.secs || (a.secs == b.secs && a.nanos < b.nanos)
}

impl Timestamp {
    pub fn new(secs: i64, nanos: u32) -> (t: Timestamp)
        ensures
            t.secs == secs,
            t.nanos == nanos,
    {
        Timestamp { secs, nanos }
    }

    /// The UTC day number of this instant.
    pub fn day(&self) -> (d: i64)
        ensures
            d == day_number(*self),
    {
        let q: i64 = self.secs / SECONDS_PER_DAY;
        let r: i64 = self.secs % SECONDS_PER_DAY;
        if r < 0 {
            q - 1
        } else {
            q
        }
    }
}

} // verus!
