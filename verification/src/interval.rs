//! Spans of time in whole nanoseconds.
use vstd::prelude::*;

verus! {

/// Nanoseconds in a second.
pub const NANOS_PER_SEC: u32 = 1_000_000_000;

/// Nanoseconds in a millisecond.
pub const NANOS_PER_MILLI: u32 = 1_000_000;

/// A span of time: whole seconds, and the nanoseconds beyond them.
#[derive(Debug, Clone, Copy)]
pub struct Interval {
    secs: u64,
    nanos: u32,
}

impl Interval {
    /// The nanoseconds beyond the whole seconds are less than a second.
    #[verifier::type_invariant]
    spec fn well_formed(self) -> bool {
        self.nanos < NANOS_PER_SEC
    }

    /// The whole seconds of the span.
    pub closed spec fn seconds(self) -> u64 {
        self.secs
    }

    /// The nanoseconds of the span beyond its whole seconds.
    pub closed spec fn beyond_seconds(self) -> u32 {
        self.nanos
    }

    /// The length of the span in nanoseconds.
    pub open spec fn total_nanos(self) -> int {
        self.seconds() * NANOS_PER_SEC + self.beyond_seconds()
    }

    /// The length of the longest span, in nanoseconds.
    pub open spec fn max_nanos() -> int {
        u64::MAX * NANOS_PER_SEC + (NANOS_PER_SEC - 1)
    }

    /// A span of `secs` seconds and `nanos` nanoseconds, unless the latter
    /// make up a second or more.
    pub fn from_parts(secs: u64, nanos: u32) -> (r: Option<Interval>)
        ensures
            r is Some <==> nanos < NANOS_PER_SEC,
            r matches Some(span) ==> span.seconds() == secs && span.beyond_seconds() == nanos,
    {
        if nanos < NANOS_PER_SEC {
            Some(Interval { secs, nanos })
        } else {
            None
        }
    }

    /// A span of `secs` seconds.
    pub fn from_secs(secs: u64) -> (r: Interval)
        ensures
            r.seconds() == secs,
            r.beyond_seconds() == 0,
    {
        Interval { secs, nanos: 0 }
    }

    /// The whole seconds of the span.
    pub fn as_secs(&self) -> (r: u64)
        ensures
            r == self.seconds(),
    {
        self.secs
    }

    /// The nanoseconds of the span beyond its whole seconds.
    pub fn subsec_nanos(&self) -> (r: u32)
        ensures
            r == self.beyond_seconds(),
            r < NANOS_PER_SEC,
    {
        proof {
            use_type_invariant(self);
        }
        self.nanos
    }

    /// The whole milliseconds of the span.
    pub fn as_millis(&self) -> (r: u128)
        ensures
            r == self.total_nanos() / (NANOS_PER_MILLI as int),
            r == self.seconds() * 1_000 + self.beyond_seconds() / 1_000_000,
    {
        self.secs as u128 * 1_000 + (self.nanos / NANOS_PER_MILLI) as u128
    }

    /// The two spans one after the other, unless that is longer than the longest span.
    pub fn checked_add(&self, other: &Interval) -> (r: Option<Interval>)
        ensures
            r is Some <==> self.total_nanos() + other.total_nanos() <= Interval::max_nanos(),
            r matches Some(sum) ==> sum.total_nanos() == self.total_nanos() + other.total_nanos(),
    {
        proof {
            use_type_invariant(self);
            use_type_invariant(other);
        }
        let nanos: u32 = self.nanos + other.nanos;
        let (carry, nanos): (u64, u32) = if nanos >= NANOS_PER_SEC {
            (1, nanos - NANOS_PER_SEC)
        } else {
            (0, nanos)
        };
        let secs: u128 = self.secs as u128 + other.secs as u128 + carry as u128;
        if secs > u64::MAX as u128 {
            None
        } else {
            Some(Interval { secs: secs as u64, nanos })
        }
    }
}

/// A second has a thousand milliseconds, and each of those a million
/// nanoseconds; the longest span is one nanosecond short of a second more than
/// its whole seconds can count.
pub proof fn law_units_of_time(span: Interval)
    ensures
        span.total_nanos() == span.seconds() * 1_000_000_000 + span.beyond_seconds(),
        Interval::max_nanos() == u64::MAX * 1_000_000_000 + 999_999_999,
        NANOS_PER_SEC == 1_000_000_000,
        NANOS_PER_MILLI == 1_000_000,
{
}

} // verus!
