use vstd::prelude::*;

verus! {

/// An instant, in whole nanoseconds from a reference instant that the caller
/// fixes once for all epochs it hands to the library.
#[derive(Clone, Copy, Debug, PartialEq, Eq, Structural)]
pub struct Epoch {
    pub nanos: i64,
}

/// A signed span of time in whole nanoseconds.
#[derive(Clone, Copy, Debug, PartialEq, Eq, Structural)]
pub struct Duration {
    pub nanos: i128,
}

impl Duration {
    pub fn from_nanos(nanos: i128) -> (d: Duration)
        ensures
            d.nanos == nanos,
    {
        Duration { nanos }
    }

    /// A whole number of seconds.
    pub fn from_seconds(seconds: i64) -> (d: Duration)
        ensures
            d.nanos == seconds * 1_000_000_000,
    {
        let wide: i128 = seconds as i128;
        Duration { nanos: wide * 1_000_000_000 }
    }

    /// The magnitude of the span, as a mathematical integer.
    pub open spec fn magnitude(self) -> int {
        if self.nanos < 0 {
            -self.nanos
        } else {
            self.nanos as int
        }
    }

    /// Strictly longer than `other`.
    pub fn exceeds(&self, other: Duration) -> (r: bool)
        ensures
            r == (self.nanos > other.nanos),
    {
        self.nanos > other.nanos
    }
}

impl Epoch {
    pub fn from_nanos(nanos: i64) -> (e: Epoch)
        ensures
            e.nanos == nanos,
    {
        Epoch { nanos }
    }

    /// The span from `earlier` to `self`; negative when `self` comes first.
    pub open spec fn spec_since(self, earlier: Epoch) -> Duration {
        Duration { nanos: (self.nanos - earlier.nanos) as i128 }
    }

    /// The span from `earlier` to `self`; negative when `self` comes first.
    pub fn since(&self, earlier: Epoch) -> (d: Duration)
        ensures
            d == self.spec_since(earlier),
            d.nanos == self.nanos - earlier.nanos,
    {
        let a: i128 = self.nanos as i128;
        let b: i128 = earlier.nanos as i128;
        Duration { nanos: a - b }
    }

    /// Strictly later than `other`.
    pub fn is_after(&self, other: Epoch) -> (r: bool)
        ensures
            r == (self.nanos > other.nanos),
    {
        self.nanos > other.nanos
    }

    /// The instant `by` after `self`, clamped to the representable range.
    pub open spec fn spec_shifted(self, by: Duration) -> Epoch {
        let t = self.nanos + by.nanos;
        if t > i64::MAX {
            Epoch { nanos: i64::MAX }
        } else if t < i64::MIN {
            Epoch { nanos: i64::MIN }
        } else {
            Epoch { nanos: t as i64 }
        }
    }

    /// The instant `by` after `self`, clamped to the representable range.
    pub fn shifted(&self, by: Duration) -> (e: Epoch)
        ensures
            e == self.spec_shifted(by),
    {
        let lo: i128 = i64::MIN as i128;
        let hi: i128 = i64::MAX as i128;
        let base: i128 = self.nanos as i128;
        if by.nanos > hi - base {
            Epoch { nanos: i64::MAX }
        } else if by.nanos < lo - base {
            Epoch { nanos: i64::MIN }
        } else {
            let t: i128 = base + by.nanos;
            Epoch { nanos: t as i64 }
        }
    }
}

/// Anything that carries an epoch.
pub trait TimeTagged {
    /// The epoch that the value carries.
    spec fn tagged_epoch(&self) -> Epoch;

    /// Retrieve the epoch.
    fn epoch(&self) -> (e: Epoch)
        ensures
            e == self.tagged_epoch(),
    ;

    /// Set the epoch.
    fn set_epoch(&mut self, epoch: Epoch)
        ensures
            final(self).tagged_epoch() == epoch,
    ;

    /// Shift the epoch by a duration, which may be negative.
    fn shift_by(&mut self, duration: Duration)
        ensures
            final(self).tagged_epoch() == old(self).tagged_epoch().spec_shifted(duration),
    {
        let next = self.epoch().shifted(duration);
        self.set_epoch(next);
    }
}

} // verus!
