//! Reversed timestamps: the time component of a generation is stored as its
//! distance to a far-future instant, so that an ascending listing of
//! generation names yields the newest generation first.

use vstd::prelude::*;

verus! {

/// Seconds of the far-future instant from which creation times are counted down.
pub const FAR_FUTURE_SECONDS: u64 = 253370761200;

/// Sub-second part of the far-future instant, in nanoseconds.
pub const FAR_FUTURE_NANOS: u32 = 999000000;

/// Nanoseconds in one millisecond, the resolution at which generations keep time.
pub const NANOS_PER_MILLI: u32 = 1000000;

/// A point in time as seconds and nanoseconds since the Unix epoch.
#[derive(Clone, Copy, Debug, PartialEq, Eq, Structural)]
pub struct Timestamp {
    pub seconds: u64,
    pub nanos: u32,
}

impl Timestamp {
    /// Whether this time can be counted down from the far-future instant.
    pub open spec fn reversible(self) -> bool {
        self.seconds <= FAR_FUTURE_SECONDS && self.nanos <= FAR_FUTURE_NANOS
    }

    /// The distance from this time to the far-future instant, field by field.
    pub open spec fn reversed(self) -> Timestamp
        recommends
            self.reversible(),
    {
        Timestamp {
            seconds: (FAR_FUTURE_SECONDS - self.seconds) as u64,
            nanos: (FAR_FUTURE_NANOS - self.nanos) as u32,
        }
    }

    /// This time with its sub-second part cut down to whole milliseconds.
    pub open spec fn truncated(self) -> Timestamp {
        Timestamp {
            seconds: self.seconds,
            nanos: (self.nanos - self.nanos % NANOS_PER_MILLI) as u32,
        }
    }

    /// Strict chronological order.
    pub open spec fn earlier_than(self, other: Timestamp) -> bool {
        self.seconds < other.seconds || (self.seconds == other.seconds && self.nanos
            < other.nanos)
    }

    /// Whole milliseconds since the Unix epoch.
    pub open spec fn millis(self) -> int {
        self.seconds * 1000 + self.nanos / NANOS_PER_MILLI
    }

    /// Counts this time down from the far-future instant. The same
    /// subtraction turns a creation time into the stored time and back;
    /// times beyond the far-future instant have no counterpart.
    pub fn reverse(self) -> (r: Option<Timestamp>)
        ensures
            r == (if self.reversible() {
                Some(self.reversed())
            } else {
                None::<Timestamp>
            }),
    {
        if self.seconds <= FAR_FUTURE_SECONDS && self.nanos <= FAR_FUTURE_NANOS {
            Some(
                Timestamp {
                    seconds: FAR_FUTURE_SECONDS - self.seconds,
                    nanos: FAR_FUTURE_NANOS - self.nanos,
                },
            )
        } else {
            None
        }
    }

    /// Cuts the sub-second part down to whole milliseconds.
    pub fn truncate(self) -> (r: Timestamp)
        ensures
            r == self.truncated(),
    {
        Timestamp { seconds: self.seconds, nanos: self.nanos - self.nanos % NANOS_PER_MILLI }
    }
}

} // verus!
