//! Points on the UTC time line, held as plain integers.

use vstd::prelude::*;

verus! {

/// A point in time: whole seconds since 1970-01-01T00:00:00Z and the
/// nanoseconds past that second.
///
/// Instants are ordered by `secs`, then by `nanos`. An instant within a leap
/// second is held as chrono holds it: in the second before, with a billion
/// nanoseconds or more.
#[derive(Clone, Copy, Debug, PartialEq, Eq, Structural)]
pub struct Instant {
    pub secs: i64,
    pub nanos: u32,
}

impl Instant {
    /// `self` is strictly earlier than `other`.
    pub open spec fn precedes(self, other: Instant) -> bool {
        self.secs < other.secs || (self.secs == other.secs && self.nanos < other.nanos)
    }

    /// `self` is `other` or earlier than it.
    pub open spec fn at_or_before(self, other: Instant) -> bool {
        self == other || self.precedes(other)
    }

    /// The instant lies within a leap second.
    pub open spec fn in_leap_second(self) -> bool {
        self.nanos >= 1_000_000_000
    }

    /// The second of the instant within its day.
    pub open spec fn second_of_day(self) -> int {
        self.secs as int % 86_400
    }

    /// The second that chrono's subtraction counts for a leap second: one
    /// more where `earlier` lies within a leap second and `self` later in the
    /// day, one less where `self` lies within one and `earlier` later in the
    /// day.
    pub open spec fn leap_adjustment(self, earlier: Instant) -> int {
        if self.second_of_day() > earlier.second_of_day() && earlier.in_leap_second() {
            1
        } else if self.second_of_day() < earlier.second_of_day() && self.in_leap_second() {
            -1
        } else {
            0
        }
    }

    /// The nanoseconds from `earlier` to `self`, as chrono's subtraction of
    /// two date-times counts them.
    pub open spec fn nanos_since(self, earlier: Instant) -> int {
        (self.secs - earlier.secs + self.leap_adjustment(earlier)) * 1_000_000_000 + (self.nanos
            - earlier.nanos)
    }

    pub fn new(secs: i64, nanos: u32) -> (r: Instant)
        ensures
            r.secs == secs,
            r.nanos == nanos,
    {
        Instant { secs, nanos }
    }

    pub fn is_before(&self, other: &Instant) -> (r: bool)
        ensures
            r == self.precedes(*other),
    {
        self.secs < other.secs || (self.secs == other.secs && self.nanos < other.nanos)
    }

    /// The second of the instant within its day, from 0 to 86 399.
    pub fn day_second(&self) -> (r: u32)
        ensures
            r == self.second_of_day(),
    {
        // A multiple of 86 400 that lifts every `i64` above zero.
        let lifted: i128 = self.secs as i128 + 9_223_372_036_854_806_400i128;
        assert(9_223_372_036_854_806_400int == 86_400 * 106_751_991_167_301int);
        assert((self.secs as int + 86_400 * 106_751_991_167_301int) % 86_400 == self.secs as int
            % 86_400) by (nonlinear_arith);
        let r: u128 = (lifted as u128) % 86_400u128;
        r as u32
    }

    /// The nanoseconds from `earlier` to `self`.
    pub fn nanoseconds_since(&self, earlier: &Instant) -> (r: i128)
        ensures
            r == self.nanos_since(*earlier),
    {
        let mine: u32 = self.day_second();
        let theirs: u32 = earlier.day_second();
        let adjustment: i128 = if mine > theirs && earlier.nanos >= 1_000_000_000 {
            1
        } else if mine < theirs && self.nanos >= 1_000_000_000 {
            -1
        } else {
            0
        };
        let seconds: i128 = self.secs as i128 - earlier.secs as i128 + adjustment;
        assert(seconds * 1_000_000_000 == (self.secs - earlier.secs + self.leap_adjustment(
            *earlier,
        )) * 1_000_000_000);
        assert(-18_446_744_073_709_551_617 <= seconds <= 18_446_744_073_709_551_617);
        seconds * 1_000_000_000 + (self.nanos as i128 - earlier.nanos as i128)
    }
}

/// Between instants outside leap seconds the distance is the plain
/// difference, it is positive exactly from an earlier to a later instant,
/// and it never decreases along the order.
pub proof fn lemma_nanos_since_ordered(a: Instant, b: Instant, origin: Instant)
    requires
        !a.in_leap_second(),
        !b.in_leap_second(),
        !origin.in_leap_second(),
        a.at_or_before(b),
    ensures
        a.nanos_since(origin) == (a.secs - origin.secs) * 1_000_000_000 + (a.nanos - origin.nanos),
        a.nanos_since(origin) <= b.nanos_since(origin),
        a.precedes(b) ==> a.nanos_since(origin) < b.nanos_since(origin),
        origin.nanos_since(origin) == 0,
{
}

} // verus!
