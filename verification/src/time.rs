//! Points in time as the bot handles them: whole seconds since the Unix epoch
//! and the nanoseconds within that second, over the range of a UTC date-time.

use vstd::prelude::*;

verus! {

/// The latest second that a UTC date-time can hold (end of year 262142).
pub const MAX_TIMESTAMP: i64 = 8_210_266_876_799;
/// The earliest second that a UTC date-time can hold (start of year -262143).
pub const MIN_TIMESTAMP: i64 = -8_334_601_315_200;
/// The largest number of whole seconds that a time span can hold.
pub const MAX_SPAN_SECS: i64 = 9_223_372_036_854_775;

pub const SECS_PER_DAY: i64 = 86_400;

/// A UTC instant: `secs` since the epoch (the Unix timestamp) and `nanos` within
/// that second.
#[derive(Clone, Copy, PartialEq, Eq, Structural)]
pub struct Timestamp {
    pub secs: i64,
    pub nanos: u32,
}

impl Timestamp {
    /// A valid instant: a second in the date-time range and fewer than 10⁹ nanoseconds.
    pub open spec fn wf(self) -> bool {
        &&& MIN_TIMESTAMP <= self.secs <= MAX_TIMESTAMP
        &&& self.nanos < 1_000_000_000
    }

    /// Nanoseconds since the epoch.
    pub open spec fn total(self) -> int {
        self.secs * 1_000_000_000 + self.nanos
    }

    /// Whether the second `secs + d` lies in the date-time range.
    pub open spec fn can_shift(self, d: int) -> bool {
        MIN_TIMESTAMP <= self.secs + d <= MAX_TIMESTAMP
    }

    /// The instant `d` whole seconds later (`DateTime + Duration::seconds(d)`).
    pub fn shift(self, d: i64) -> (r: Timestamp)
        requires
            self.wf(),
            self.can_shift(d as int),
        ensures
            r.wf(),
            r.secs == self.secs + d,
            r.nanos == self.nanos,
            r.total() == self.total() + d * 1_000_000_000,
    {
        Timestamp { secs: self.secs + d, nanos: self.nanos }
    }

    /// Whether `self` is not later than `other`.
    pub fn not_after(&self, other: &Timestamp) -> (r: bool)
        requires
            self.wf(),
            other.wf(),
        ensures
            r == (self.total() <= other.total()),
    {
        self.secs < other.secs || (self.secs == other.secs && self.nanos <= other.nanos)
    }
}

} // verus!
