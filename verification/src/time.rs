//! Points in time, to the nanosecond.

use vstd::prelude::*;

verus! {

/// A point in time: whole seconds since the Unix epoch, and the nanoseconds
/// that follow them.
#[derive(Clone, Copy, Debug, PartialEq, Eq, Structural)]
pub struct Timestamp {
    pub secs: i64,
    pub nanos: u32,
}

impl Timestamp {
    /// Nanoseconds since the epoch.
    pub open spec fn total_nanos(&self) -> int {
        self.secs * 1_000_000_000 + self.nanos
    }

    /// Whole seconds from `self` to `later`, rounded towards zero; negative
    /// where `later` is the earlier of the two.
    pub open spec fn seconds_until(&self, later: Timestamp) -> int {
        let d = later.total_nanos() - self.total_nanos();
        if d >= 0 {
            d / 1_000_000_000
        } else {
            -((-d) / 1_000_000_000)
        }
    }

    pub fn new(secs: i64, nanos: u32) -> (r: Timestamp)
        ensures
            r == (Timestamp { secs, nanos }),
    {
        Timestamp { secs, nanos }
    }

    fn nanos_since_epoch(&self) -> (r: i128)
        ensures
            r == self.total_nanos(),
    {
        self.secs as i128 * 1_000_000_000i128 + self.nanos as i128
    }

    /// Whether `self` is strictly earlier than `other`.
    pub fn lt(&self, other: &Timestamp) -> (r: bool)
        ensures
            r == (self.total_nanos() < other.total_nanos()),
    {
        self.nanos_since_epoch() < other.nanos_since_epoch()
    }

    /// Whether `self` is no later than `other`.
    pub fn le(&self, other: &Timestamp) -> (r: bool)
        ensures
            r == (self.total_nanos() <= other.total_nanos()),
    {
        self.nanos_since_epoch() <= other.nanos_since_epoch()
    }

    /// Whole seconds from `self` to `later`, rounded towards zero.
    pub fn elapsed_seconds(&self, later: &Timestamp) -> (r: i128)
        ensures
            r == self.seconds_until(*later),
    {
        let d: i128 = later.nanos_since_epoch() - self.nanos_since_epoch();
        if d >= 0 {
            ((d as u128) / 1_000_000_000u128) as i128
        } else {
            let m: u128 = (-d) as u128;
            -((m / 1_000_000_000u128) as i128)
        }
    }
}

} // verus!
