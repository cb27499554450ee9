//! Points in time as the library holds them.

use vstd::prelude::*;

verus! {

/// A point in time on the UTC time line: whole seconds since the Unix
/// epoch, and the nanoseconds that follow them.
#[derive(Clone, Copy, Debug, PartialEq, Eq, Structural)]
pub struct ModifiedTime {
    /// Seconds since 1970-01-01T00:00:00Z; negative before it.
    pub secs: i64,
    /// Nanoseconds after `secs`.
    pub nanos: u32,
}

/// The seconds of the earliest time that a date can hold:
/// January 1 of the year -262143, at midnight.
pub const EARLIEST_SECS: i64 = -8334601228800i64;

/// `a` is strictly earlier than `b`.
pub open spec fn time_before(a: ModifiedTime, b: ModifiedTime) -> bool {
    a.secs < b.secs || (a.secs == b.secs && a.nanos < b.nanos)
}

/// The later of two times.
pub open spec fn later_of(a: ModifiedTime, b: ModifiedTime) -> ModifiedTime {
    if time_before(a, b) {
        b
    } else {
        a
    }
}

impl ModifiedTime {
    /// The time `secs` seconds and `nanos` nanoseconds after the epoch.
    pub fn new(secs: i64, nanos: u32) -> (t: ModifiedTime)
        ensures
            t.secs == secs,
            t.nanos == nanos,
    {
        ModifiedTime { secs, nanos }
    }

    /// The earliest time there is. It stands for "never modified" and for a
    /// file whose modification time could not be read.
    pub fn earliest() -> (t: ModifiedTime)
        ensures
            t.secs == EARLIEST_SECS,
            t.nanos == 0,
    {
        ModifiedTime { secs: EARLIEST_SECS, nanos: 0 }
    }

    /// The Unix epoch, which stands for a file whose metadata could be read
    /// but held no modification time.
    pub fn epoch() -> (t: ModifiedTime)
        ensures
            t.secs == 0,
            t.nanos == 0,
    {
        ModifiedTime { secs: 0, nanos: 0 }
    }

    /// Whether `self` is strictly earlier than `other`.
    pub fn is_before(&self, other: &ModifiedTime) -> (r: bool)
        ensures
            r == time_before(*self, *other),
    {
        self.secs < other.secs || (self.secs == other.secs && self.nanos < other.nanos)
    }

    /// Whole seconds since the epoch.
    pub fn timestamp(&self) -> (secs: i64)
        ensures
            secs == self.secs,
    {
        self.secs
    }
}

} // verus!
