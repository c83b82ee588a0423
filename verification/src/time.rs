//! Time spans and clock readings used by the container's diagnostics.
use vstd::prelude::*;
use crate::support::{duration_debug, duration_debug_text};

verus! {

/// Number of nanoseconds in one second.
pub open spec fn nanos_per_sec() -> int {
    1_000_000_000
}

/// A span of time, kept as whole seconds plus a sub-second nanosecond part.
///
/// The model of a `Duration` is its total number of nanoseconds (`total_nanos`).
#[derive(Clone, Copy, Debug, PartialEq, Eq, PartialOrd, Ord, Hash, Structural)]
pub struct Duration {
    secs: u64,
    nanos: u32,
}

impl Duration {
    /// The nanosecond part is always below one second.
    #[verifier::type_invariant]
    pub closed spec fn well_formed(self) -> bool {
        self.nanos < 1_000_000_000
    }

    /// Every well-formed span lies between zero and the largest span.
    pub proof fn lemma_bounds(self)
        requires
            self.well_formed(),
        ensures
            0 <= self.total_nanos() <= Self::max_nanos(),
    {
        assert(self.secs * nanos_per_sec() <= u64::MAX * nanos_per_sec()) by (nonlinear_arith)
            requires self.secs <= u64::MAX;
    }

    /// No span is negative.
    pub proof fn lemma_nonnegative(self)
        ensures
            self.total_nanos() >= 0,
    {
    }

    /// The span of `n` nanoseconds (meaningful for `0 <= n <= max_nanos()`).
    pub closed spec fn of_nanos(n: int) -> Duration {
        Duration { secs: (n / nanos_per_sec()) as u64, nanos: (n % nanos_per_sec()) as u32 }
    }

    /// `of_nanos(n)` has length `n`.
    pub proof fn lemma_of_nanos(n: int)
        requires
            0 <= n <= Self::max_nanos(),
        ensures
            Self::of_nanos(n).total_nanos() == n,
            Self::of_nanos(n).well_formed(),
    {
        assert(n / 1_000_000_000 <= u64::MAX) by (nonlinear_arith)
            requires 0 <= n <= u64::MAX * 1_000_000_000 + 999_999_999;
        assert((n / 1_000_000_000) * 1_000_000_000 + n % 1_000_000_000 == n) by (nonlinear_arith);
    }

    /// Total length of the span in nanoseconds.
    pub closed spec fn total_nanos(self) -> int {
        self.secs * nanos_per_sec() + self.nanos
    }

    /// The largest span: `u64::MAX` seconds plus 999_999_999 nanoseconds.
    pub open spec fn max_nanos() -> int {
        u64::MAX * nanos_per_sec() + 999_999_999
    }

    proof fn lemma_divmod(s: int, n: int)
        requires
            0 <= s,
            0 <= n < 1_000_000_000,
        ensures
            (s * 1_000_000_000 + n) / 1_000_000_000 == s,
            (s * 1_000_000_000 + n) % 1_000_000_000 == n,
    {
        vstd::arithmetic::div_mod::lemma_fundamental_div_mod_converse(
            s * 1_000_000_000 + n,
            1_000_000_000,
            s,
            n,
        );
    }

    /// The empty span.
    pub fn zero() -> (d: Duration)
        ensures
            d.total_nanos() == 0,
            d == Self::of_nanos(0),
    {
        Duration { secs: 0, nanos: 0 }
    }

    /// The largest representable span.
    pub fn max_value() -> (d: Duration)
        ensures
            d.total_nanos() == Self::max_nanos(),
            d == Self::of_nanos(Self::max_nanos()),
    {
        proof {
            Self::lemma_divmod(u64::MAX as int, 999_999_999);
        }
        Duration { secs: u64::MAX, nanos: 999_999_999 }
    }

    /// A span of whole seconds.
    pub fn from_secs(secs: u64) -> (d: Duration)
        ensures
            d.total_nanos() == secs * nanos_per_sec(),
    {
        Duration { secs, nanos: 0 }
    }

    /// A span of whole milliseconds.
    pub fn from_millis(millis: u64) -> (d: Duration)
        ensures
            d.total_nanos() == millis * 1_000_000,
    {
        let secs = millis / 1000;
        let rem = millis % 1000;
        let d = Duration { secs, nanos: (rem * 1_000_000) as u32 };
        assert(secs * 1_000_000_000 + rem * 1_000_000 == millis * 1_000_000) by (nonlinear_arith)
            requires secs == millis / 1000, rem == millis % 1000;
        d
    }

    /// A span of whole nanoseconds.
    pub fn from_nanos(nanos: u64) -> (d: Duration)
        ensures
            d.total_nanos() == nanos,
    {
        let secs = nanos / 1_000_000_000;
        let rem = nanos % 1_000_000_000;
        let d = Duration { secs, nanos: rem as u32 };
        d
    }

    /// A span of nanoseconds given as a 128-bit count; counts beyond the largest span give
    /// the largest span.
    pub fn from_nanos_u128(nanos: u128) -> (d: Duration)
        ensures
            nanos <= Self::max_nanos() ==> d.total_nanos() == nanos,
            nanos > Self::max_nanos() ==> d.total_nanos() == Self::max_nanos(),
            nanos <= Self::max_nanos() ==> d == Self::of_nanos(nanos as int),
    {
        let secs = nanos / 1_000_000_000;
        let rem = nanos % 1_000_000_000;
        if secs > u64::MAX as u128 {
            assert(nanos > Self::max_nanos());
            Self::max_value()
        } else {
            Duration { secs: secs as u64, nanos: rem as u32 }
        }
    }

    /// Whole seconds of the span.
    pub fn as_secs(&self) -> (s: u64)
        ensures
            s == self.total_nanos() / nanos_per_sec(),
    {
        proof {
            use_type_invariant(self);
            Self::lemma_divmod(self.secs as int, self.nanos as int);
        }
        self.secs
    }

    /// Nanoseconds below the last whole second.
    pub fn subsec_nanos(&self) -> (n: u32)
        ensures
            n == self.total_nanos() % nanos_per_sec(),
    {
        proof {
            use_type_invariant(self);
            Self::lemma_divmod(self.secs as int, self.nanos as int);
        }
        self.nanos
    }

    /// The text std's `Debug` gives this span (such as `1.5ms`).
    pub fn debug_text(&self) -> (r: String)
        ensures
            r@ == duration_debug_text(
                (self.total_nanos() / nanos_per_sec()) as u64,
                (self.total_nanos() % nanos_per_sec()) as u32,
            ),
    {
        proof {
            use_type_invariant(self);
            Self::lemma_divmod(self.secs as int, self.nanos as int);
        }
        duration_debug(self.secs, self.nanos)
    }

    /// Total nanoseconds of the span.
    pub fn as_nanos(&self) -> (n: u128)
        ensures
            n == self.total_nanos(),
    {
        proof {
            use_type_invariant(self);
        }
        assert(self.secs * 1_000_000_000 <= u64::MAX * 1_000_000_000) by (nonlinear_arith)
            requires self.secs <= u64::MAX;
        self.secs as u128 * 1_000_000_000 + self.nanos as u128
    }

    /// Total whole milliseconds of the span.
    pub fn as_millis(&self) -> (n: u128)
        ensures
            n == self.total_nanos() / 1_000_000,
    {
        let t = self.as_nanos();
        t / 1_000_000
    }

    /// `self <= other` by length.
    pub fn le(&self, other: &Duration) -> (r: bool)
        ensures
            r == (self.total_nanos() <= other.total_nanos()),
    {
        proof {
            use_type_invariant(self);
            use_type_invariant(other);
        }
        self.secs < other.secs || (self.secs == other.secs && self.nanos <= other.nanos)
    }

    /// The shorter of two spans.
    pub fn min_of(self, other: Duration) -> (r: Duration)
        ensures
            r.total_nanos() == if self.total_nanos() <= other.total_nanos() {
                self.total_nanos()
            } else {
                other.total_nanos()
            },
            r == self || r == other,
    {
        if self.le(&other) {
            self
        } else {
            other
        }
    }

    /// The longer of two spans.
    pub fn max_of(self, other: Duration) -> (r: Duration)
        ensures
            r.total_nanos() == if self.total_nanos() >= other.total_nanos() {
                self.total_nanos()
            } else {
                other.total_nanos()
            },
            r == self || r == other,
    {
        if other.le(&self) {
            self
        } else {
            other
        }
    }

    /// Sum of two spans; `None` when the sum exceeds the largest span.
    pub fn checked_add(self, other: Duration) -> (r: Option<Duration>)
        ensures
            r is Some <==> self.total_nanos() + other.total_nanos() <= Self::max_nanos(),
            r matches Some(d) ==> d.total_nanos() == self.total_nanos() + other.total_nanos(),
    {
        proof {
            use_type_invariant(self);
            use_type_invariant(other);
        }
        let n = self.nanos + other.nanos;
        let (carry, nn): (u64, u32) = if n >= 1_000_000_000 {
            (1, n - 1_000_000_000)
        } else {
            (0, n)
        };
        match self.secs.checked_add(other.secs) {
            Some(s) => match s.checked_add(carry) {
                Some(s2) => Some(Duration { secs: s2, nanos: nn }),
                None => None,
            },
            None => None,
        }
    }

    /// Sum of two spans, clamped at the largest span.
    pub fn saturating_add(self, other: Duration) -> (r: Duration)
        ensures
            self.total_nanos() + other.total_nanos() <= Self::max_nanos() ==> r.total_nanos()
                == self.total_nanos() + other.total_nanos(),
            self.total_nanos() + other.total_nanos() > Self::max_nanos() ==> r.total_nanos()
                == Self::max_nanos(),
    {
        match self.checked_add(other) {
            Some(d) => d,
            None => Self::max_value(),
        }
    }

    /// The span divided by a non-zero count, rounded down to whole nanoseconds.
    pub fn div_u32(self, divisor: u32) -> (r: Duration)
        requires
            divisor != 0,
        ensures
            r.total_nanos() == self.total_nanos() / (divisor as int),
            r == Self::of_nanos(self.total_nanos() / (divisor as int)),
    {
        let total = self.as_nanos();
        proof {
            use_type_invariant(&self);
            assert(self.secs * nanos_per_sec() <= u64::MAX * nanos_per_sec()) by (nonlinear_arith)
                requires self.secs <= u64::MAX;
        }
        let q = total / (divisor as u128);
        assert(q <= total) by (nonlinear_arith)
            requires q == total / (divisor as u128), divisor >= 1;
        Self::from_nanos_u128(q)
    }

    /// The span divided by a non-zero 64-bit count, rounded down to whole nanoseconds.
    pub fn div_u64(self, divisor: u64) -> (r: Duration)
        requires
            divisor != 0,
        ensures
            r.total_nanos() == self.total_nanos() / (divisor as int),
            r == Self::of_nanos(self.total_nanos() / (divisor as int)),
    {
        let total = self.as_nanos();
        proof {
            use_type_invariant(&self);
            assert(self.secs * nanos_per_sec() <= u64::MAX * nanos_per_sec()) by (nonlinear_arith)
                requires self.secs <= u64::MAX;
        }
        let q = total / (divisor as u128);
        assert(q <= total) by (nonlinear_arith)
            requires q == total / (divisor as u128), divisor >= 1;
        Self::from_nanos_u128(q)
    }
}

} // verus!
