//! Spans of time and points on a monotonic clock, counted in nanoseconds.
use vstd::prelude::*;

verus! {

/// The longest span: `u64::MAX` seconds and 999,999,999 nanoseconds.
pub const MAX_NANOS: u128 = 18_446_744_073_709_551_615_999_999_999;

/// A span of time. It never exceeds [`MAX_NANOS`].
#[derive(Clone, Copy, Debug, PartialEq, Eq, Structural)]
pub struct Duration {
    nanos: u128,
}

/// A point on a monotonic clock, as the span since that clock's fixed origin.
#[derive(Clone, Copy, Debug, PartialEq, Eq, Structural)]
pub struct Instant {
    since_origin: Duration,
}

impl View for Duration {
    type V = nat;

    closed spec fn view(&self) -> nat {
        self.nanos as nat
    }
}

impl View for Instant {
    type V = nat;

    closed spec fn view(&self) -> nat {
        self.since_origin@
    }
}

/// The span from `earlier` to `later`, or nothing when `earlier` is not earlier.
pub open spec fn span_since(later: nat, earlier: nat) -> nat {
    if later >= earlier {
        (later - earlier) as nat
    } else {
        0
    }
}

pub open spec fn at_most_max(nanos: nat) -> nat {
    if nanos <= MAX_NANOS {
        nanos
    } else {
        MAX_NANOS as nat
    }
}

impl Duration {
    #[verifier::type_invariant]
    spec fn bounded(self) -> bool {
        self.nanos <= MAX_NANOS
    }

    /// A whole number of seconds and the nanoseconds beyond them.
    pub fn new(secs: u64, nanos: u32) -> (r: Duration)
        requires
            nanos < 1_000_000_000,
        ensures
            r@ == secs * 1_000_000_000 + nanos,
    {
        Duration { nanos: secs as u128 * 1_000_000_000 + nanos as u128 }
    }

    pub fn from_secs(secs: u64) -> (r: Duration)
        ensures
            r@ == secs * 1_000_000_000,
    {
        Duration { nanos: secs as u128 * 1_000_000_000 }
    }

    pub fn from_millis(millis: u64) -> (r: Duration)
        ensures
            r@ == millis * 1_000_000,
    {
        Duration { nanos: millis as u128 * 1_000_000 }
    }

    pub fn is_zero(self) -> (r: bool)
        ensures
            r == (self@ == 0),
    {
        self.nanos == 0
    }

    pub fn is_less_than(self, other: Duration) -> (r: bool)
        ensures
            r == (self@ < other@),
    {
        self.nanos < other.nanos
    }

    pub fn as_secs(self) -> (r: u64)
        ensures
            r == self@ / 1_000_000_000,
    {
        proof {
            use_type_invariant(self);
        }
        (self.nanos / 1_000_000_000) as u64
    }

    pub fn subsec_nanos(self) -> (r: u32)
        ensures
            r == self@ % 1_000_000_000,
    {
        (self.nanos % 1_000_000_000) as u32
    }

    pub fn as_millis(self) -> (r: u128)
        ensures
            r == self@ / 1_000_000,
    {
        self.nanos / 1_000_000
    }

    pub fn as_nanos(self) -> (r: u128)
        ensures
            r == self@,
            r <= MAX_NANOS,
    {
        proof {
            use_type_invariant(self);
        }
        self.nanos
    }

    /// The difference, or zero when `other` is longer.
    pub fn saturating_sub(self, other: Duration) -> (r: Duration)
        ensures
            r@ == span_since(self@, other@),
    {
        proof {
            use_type_invariant(self);
        }
        if self.nanos >= other.nanos {
            Duration { nanos: self.nanos - other.nanos }
        } else {
            Duration { nanos: 0 }
        }
    }

    /// The sum, or the longest span when it would be longer.
    pub fn saturating_add(self, other: Duration) -> (r: Duration)
        ensures
            r@ == at_most_max(self@ + other@),
    {
        proof {
            use_type_invariant(self);
            use_type_invariant(other);
        }
        let sum: u128 = self.nanos + other.nanos;
        if sum <= MAX_NANOS {
            Duration { nanos: sum }
        } else {
            Duration { nanos: MAX_NANOS }
        }
    }

    /// The product, or the longest span when it would be longer.
    pub fn saturating_mul(self, factor: u32) -> (r: Duration)
        ensures
            r@ == at_most_max(self@ * factor as nat),
    {
        proof {
            use_type_invariant(self);
        }
        assert(self.nanos * factor <= 18_446_744_073_709_551_615_999_999_999 * 0xffff_ffff)
            by (nonlinear_arith)
            requires
                self.nanos <= 18_446_744_073_709_551_615_999_999_999,
                factor <= 0xffff_ffff,
        ;
        assert(self.nanos * factor >= 0) by (nonlinear_arith);
        let product: u128 = self.nanos * factor as u128;
        if product <= MAX_NANOS {
            Duration { nanos: product }
        } else {
            Duration { nanos: MAX_NANOS }
        }
    }
}

impl Instant {
    /// The point `since_origin` after the clock's origin.
    pub fn at(since_origin: Duration) -> (r: Instant)
        ensures
            r@ == since_origin@,
    {
        Instant { since_origin }
    }

    /// The span from `earlier` to this point, or zero when `earlier` is later.
    pub fn saturating_duration_since(self, earlier: Instant) -> (r: Duration)
        ensures
            r@ == span_since(self@, earlier@),
    {
        self.since_origin.saturating_sub(earlier.since_origin)
    }
}

} // verus!
