//! Points in time.

use vstd::prelude::*;

verus! {

/// A UTC instant: whole seconds since the Unix epoch, and nanoseconds within
/// the second.
#[derive(Debug, Clone, Copy, PartialEq, Eq, Structural)]
pub struct Timestamp {
    pub secs: i64,
    pub nanos: u32,
}

impl Timestamp {
    /// `self` is strictly earlier than `other`.
    pub open spec fn precedes(self, other: Timestamp) -> bool {
        self.secs < other.secs || (self.secs == other.secs && self.nanos < other.nanos)
    }

    /// Whether `self` is strictly earlier than `other`.
    pub fn is_before(&self, other: &Timestamp) -> (r: bool)
        ensures
            r == self.precedes(*other),
    {
        self.secs < other.secs || (self.secs == other.secs && self.nanos < other.nanos)
    }
}

/// A reading that the system clock can give: not before the Unix epoch, with a
/// fraction below one second.
pub open spec fn is_clock_reading(t: Timestamp) -> bool {
    0 <= t.secs && t.nanos < 1_000_000_000
}

/// The current time, from `chrono::Utc::now`.
///
/// `Utc::now` builds its value from the system time since the Unix epoch, so
/// the seconds are not negative and the fraction is below one second; it does
/// not return when the system clock stands before the epoch. Nothing is said
/// of how two readings compare.
#[verifier::external_body]
pub(crate) fn now() -> (t: Timestamp)
    ensures
        is_clock_reading(t),
{
    let now = chrono::Utc::now();
    Timestamp { secs: now.timestamp(), nanos: now.timestamp_subsec_nanos() }
}

} // verus!
