//! A span of time held as whole seconds plus sub-second nanoseconds.

use vstd::arithmetic::div_mod::lemma_fundamental_div_mod_converse;
use vstd::prelude::*;

verus! {

/// Nanoseconds in one second.
pub const NANOS_PER_SEC: u32 = 1_000_000_000;

/// A non-negative span of time with nanosecond resolution.
///
/// Its view is the total number of nanoseconds it spans.
#[derive(Clone, Copy, Debug)]
pub struct Span {
    secs: u64,
    nanos: u32,
}

impl View for Span {
    type V = nat;

    closed spec fn view(&self) -> nat {
        (self.secs * 1_000_000_000 + self.nanos) as nat
    }
}

/// Whole seconds of a nanosecond count, rounded up.
pub open spec fn ceil_seconds(total_nanos: nat) -> nat {
    if total_nanos % 1_000_000_000 == 0 {
        total_nanos / 1_000_000_000
    } else {
        total_nanos / 1_000_000_000 + 1
    }
}

/// The largest count of nanoseconds a span can hold.
pub open spec fn max_span_nanos() -> nat {
    (u64::MAX * 1_000_000_000 + 999_999_999) as nat
}

impl Span {
    #[verifier::type_invariant]
    spec fn well_formed(self) -> bool {
        self.nanos < 1_000_000_000
    }

    proof fn lemma_parts(self)
        requires
            self.well_formed(),
        ensures
            self@ / 1_000_000_000 == self.secs,
            self@ % 1_000_000_000 == self.nanos,
            self@ <= max_span_nanos(),
    {
        lemma_fundamental_div_mod_converse(
            self@ as int,
            1_000_000_000,
            self.secs as int,
            self.nanos as int,
        );
    }

    /// The span of `secs` seconds and `nanos` nanoseconds; whole seconds in
    /// `nanos` carry over into the seconds, which must then still fit.
    pub fn new(secs: u64, nanos: u32) -> (s: Span)
        requires
            secs + nanos / NANOS_PER_SEC <= u64::MAX,
        ensures
            s@ == secs * 1_000_000_000 + nanos,
    {
        let extra: u32 = nanos / NANOS_PER_SEC;
        let rest: u32 = nanos % NANOS_PER_SEC;
        proof {
            assert(nanos == extra * 1_000_000_000 + rest) by (nonlinear_arith)
                requires
                    extra == nanos / 1_000_000_000,
                    rest == nanos % 1_000_000_000,
            ;
            assert((secs + extra) * 1_000_000_000 + rest == secs * 1_000_000_000 + nanos) by (nonlinear_arith)
                requires
                    nanos == extra * 1_000_000_000 + rest,
            ;
        }
        Span { secs: secs + extra as u64, nanos: rest }
    }

    /// The empty span.
    pub fn zero() -> (s: Span)
        ensures
            s@ == 0,
    {
        Span { secs: 0, nanos: 0 }
    }

    /// A span of whole seconds.
    pub fn from_secs(secs: u64) -> (s: Span)
        ensures
            s@ == secs * 1_000_000_000,
    {
        Span { secs, nanos: 0 }
    }

    /// A span of whole milliseconds.
    pub fn from_millis(millis: u64) -> (s: Span)
        ensures
            s@ == millis * 1_000_000,
    {
        let secs = millis / 1000;
        let rem = millis % 1000;
        let nanos = (rem as u32) * 1_000_000;
        Span { secs, nanos }
    }

    /// Whole seconds in the span, rounded down.
    pub fn as_secs(&self) -> (r: u64)
        ensures
            r == self@ / 1_000_000_000,
    {
        proof {
            use_type_invariant(self);
            self.lemma_parts();
        }
        self.secs
    }

    /// The nanoseconds beyond the whole seconds.
    pub fn subsec_nanos(&self) -> (r: u32)
        ensures
            r == self@ % 1_000_000_000,
            r < NANOS_PER_SEC,
    {
        proof {
            use_type_invariant(self);
            self.lemma_parts();
        }
        self.nanos
    }

    /// Whether the span is empty.
    pub fn is_zero(&self) -> (r: bool)
        ensures
            r == (self@ == 0),
    {
        proof {
            use_type_invariant(self);
        }
        self.secs == 0 && self.nanos == 0
    }

    /// Whether this span is no longer than `other`.
    pub fn le(&self, other: &Span) -> (r: bool)
        ensures
            r == (self@ <= other@),
    {
        proof {
            use_type_invariant(self);
            use_type_invariant(other);
        }
        self.secs < other.secs || (self.secs == other.secs && self.nanos <= other.nanos)
    }

    /// The shorter of two spans.
    pub fn min(self, other: Span) -> (r: Span)
        ensures
            r@ == if self@ <= other@ { self@ } else { other@ },
    {
        if self.le(&other) {
            self
        } else {
            other
        }
    }

    /// The longer of two spans.
    pub fn max(self, other: Span) -> (r: Span)
        ensures
            r@ == if self@ >= other@ { self@ } else { other@ },
    {
        if other.le(&self) {
            self
        } else {
            other
        }
    }

    /// `self - other`, or the empty span when `other` is longer.
    pub fn saturating_sub(&self, other: &Span) -> (r: Span)
        ensures
            r@ == if self@ >= other@ { self@ - other@ } else { 0 },
    {
        proof {
            use_type_invariant(self);
            use_type_invariant(other);
        }
        if !other.le(self) {
            return Span::zero();
        }
        if self.nanos >= other.nanos {
            Span { secs: self.secs - other.secs, nanos: self.nanos - other.nanos }
        } else {
            Span { secs: self.secs - other.secs - 1, nanos: self.nanos + 1_000_000_000 - other.nanos }
        }
    }

    /// `self + other`, or the longest span when the sum is longer than a
    /// span can be.
    pub fn saturating_add(&self, other: &Span) -> (r: Span)
        ensures
            r@ == if self@ + other@ <= max_span_nanos() {
                self@ + other@
            } else {
                max_span_nanos()
            },
    {
        proof {
            use_type_invariant(self);
            use_type_invariant(other);
        }
        let n: u32 = self.nanos + other.nanos;
        let carry: u64 = if n >= NANOS_PER_SEC { 1 } else { 0 };
        let nanos: u32 = if n >= NANOS_PER_SEC { n - NANOS_PER_SEC } else { n };
        let longest = Span { secs: u64::MAX, nanos: 999_999_999 };
        match self.secs.checked_add(other.secs) {
            None => longest,
            Some(s) => match s.checked_add(carry) {
                None => longest,
                Some(total) => Span { secs: total, nanos },
            },
        }
    }

    /// Half of the span, rounded down to the nanosecond.
    pub fn half(&self) -> (r: Span)
        ensures
            r@ == self@ / 2,
    {
        proof {
            use_type_invariant(self);
        }
        let secs = self.secs / 2;
        let carry: u32 = if self.secs % 2 == 1 { 1_000_000_000 } else { 0 };
        let nanos = ((carry as u64 + self.nanos as u64) / 2) as u32;
        let r = Span { secs, nanos };
        proof {
            let total = self@ as int;
            assert(total == 2 * (secs * 1_000_000_000 + nanos) + (carry as u64 + self.nanos as u64) % 2) by {
                assert(self.secs == 2 * secs + self.secs % 2);
            }
            lemma_fundamental_div_mod_converse(
                total,
                2,
                r@ as int,
                ((carry as u64 + self.nanos as u64) % 2) as int,
            );
        }
        r
    }

    /// Twice the span, or `None` when that is longer than a span can be.
    pub fn checked_double(&self) -> (r: Option<Span>)
        ensures
            r is Some <==> 2 * self@ <= max_span_nanos(),
            r matches Some(d) ==> d@ == 2 * self@,
    {
        proof {
            use_type_invariant(self);
            self.lemma_parts();
        }
        let nanos2 = self.nanos as u64 * 2;
        let carry: u64 = if nanos2 >= 1_000_000_000 { 1 } else { 0 };
        let nanos = (nanos2 - carry * 1_000_000_000) as u32;
        if self.secs > (u64::MAX - carry) / 2 {
            None
        } else {
            Some(Span { secs: self.secs * 2 + carry, nanos })
        }
    }
}

} // verus!
