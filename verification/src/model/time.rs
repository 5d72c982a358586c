//! Points in time and lengths of time as plain numbers of nanoseconds.

use vstd::prelude::*;

verus! {

/// Nanoseconds in a millisecond.
pub const NANOS_PER_MILLI: u128 = 1_000_000;

/// Nanoseconds in a second.
pub const NANOS_PER_SEC: u128 = 1_000_000_000;

/// A length of time.
#[derive(Clone, Copy, Debug, PartialEq, Eq, Structural, PartialOrd, Ord, Hash)]
pub struct Span {
    /// Length in nanoseconds.
    pub nanos: u128,
}

impl Span {
    /// A whole number of nanoseconds.
    pub fn from_nanos(nanos: u128) -> (r: Span)
        ensures
            r.nanos == nanos,
    {
        Span { nanos }
    }

    /// A whole number of milliseconds.
    pub fn from_millis(ms: u64) -> (r: Span)
        ensures
            r.nanos == ms * NANOS_PER_MILLI,
    {
        Span { nanos: (ms as u128) * NANOS_PER_MILLI }
    }

    /// A whole number of seconds.
    pub fn from_secs(s: u64) -> (r: Span)
        ensures
            r.nanos == s * NANOS_PER_SEC,
    {
        Span { nanos: (s as u128) * NANOS_PER_SEC }
    }

    /// `self - other`, or zero when `other` is longer.
    pub fn saturating_sub(self, other: Span) -> (r: Span)
        ensures
            r.nanos == (if self.nanos >= other.nanos {
                self.nanos - other.nanos
            } else {
                0
            }),
    {
        if self.nanos >= other.nanos {
            Span { nanos: self.nanos - other.nanos }
        } else {
            Span { nanos: 0 }
        }
    }
}

/// A wall-clock reading: nanoseconds since the UNIX epoch, negative before it.
#[derive(Clone, Copy, Debug, PartialEq, Eq, Structural, PartialOrd, Ord, Hash)]
pub struct Timestamp {
    /// Nanoseconds since 1970-01-01T00:00:00Z.
    pub nanos: i128,
}

/// The reading of a clock that is `nanos` nanoseconds after the epoch, or before
/// it; the latest reading where the distance is out of range.
pub open spec fn clock_reading(after: bool, nanos: u128) -> Timestamp {
    if nanos > i128::MAX {
        Timestamp { nanos: i128::MAX }
    } else if after {
        Timestamp { nanos: nanos as i128 }
    } else {
        Timestamp { nanos: (-nanos) as i128 }
    }
}

impl Timestamp {
    /// A reading `nanos` nanoseconds after the epoch.
    pub fn from_nanos(nanos: i128) -> (r: Timestamp)
        ensures
            r.nanos == nanos,
    {
        Timestamp { nanos }
    }

    /// The epoch itself.
    pub fn unix_epoch() -> (r: Timestamp)
        ensures
            r.nanos == 0,
    {
        Timestamp { nanos: 0 }
    }

    /// The reading of a clock that is `nanos` nanoseconds away from the epoch,
    /// on the later side if `after`. Beyond what a reading holds, it is the latest
    /// one.
    pub fn from_clock(after: bool, nanos: u128) -> (r: Timestamp)
        ensures
            r == clock_reading(after, nanos),
    {
        if nanos > i128::MAX as u128 {
            Timestamp { nanos: i128::MAX }
        } else if after {
            Timestamp { nanos: nanos as i128 }
        } else {
            Timestamp { nanos: -(nanos as i128) }
        }
    }

    /// The wall clock now. It is the reading of some distance to the epoch; which
    /// one depends on the machine's clock.
    pub fn now() -> (r: Timestamp)
        ensures
            exists|after: bool, nanos: u128| r == #[trigger] clock_reading(after, nanos),
    {
        let (after, nanos): (bool, u128) = wall_clock();
        Timestamp::from_clock(after, nanos)
    }

    /// Time since the epoch; zero for readings before it.
    pub fn since_epoch(self) -> (r: Span)
        ensures
            r.nanos == (if self.nanos >= 0 {
                self.nanos as int
            } else {
                0
            }),
    {
        if self.nanos >= 0 {
            Span { nanos: self.nanos as u128 }
        } else {
            Span { nanos: 0 }
        }
    }
}

/// `SystemTime::now` as the distance to the epoch in nanoseconds, and whether
/// the reading is at or after the epoch. It depends on the machine's clock, so
/// nothing is claimed of it.
#[verifier::external_body]
fn wall_clock() -> (r: (bool, u128)) {
    match std::time::SystemTime::now().duration_since(std::time::UNIX_EPOCH) {
        Ok(d) => (true, d.as_nanos()),
        Err(e) => (false, e.duration().as_nanos()),
    }
}

} // verus!
