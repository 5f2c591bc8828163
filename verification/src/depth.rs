//! The depth value written into a sprite's draw transform.
//!
//! A depth is an exact rational `base + num / den`: an integer layer base
//! depth plus a fractional y-sort offset in `[0, 1)`. Keeping the fraction
//! exact (rather than quantizing it) makes the ordering collision-free: two
//! depths produced for one frame are equal only when base, numerator and
//! denominator all agree.

use vstd::prelude::*;

verus! {

/// A per-frame render depth: the rational number `base + num / den`.
///
/// Well-formed values keep the fractional part strictly below one
/// (`num < den`), so the integer layer bases alone decide cross-layer
/// ordering.
#[derive(Clone, Copy, Debug, PartialEq, Eq, Structural)]
pub struct Depth {
    /// Integer part: the base depth of the entity's effective layer.
    pub base: i64,
    /// Numerator of the fractional y-sort offset.
    pub num: usize,
    /// Denominator of the fractional y-sort offset.
    pub den: usize,
}

impl Depth {
    /// The fractional part stays in `[0, 1)`.
    pub open spec fn wf(self) -> bool {
        self.num < self.den
    }

    /// Strict order on the rational values the depths denote.
    ///
    /// For well-formed depths the integer bases decide first; equal bases
    /// fall back to comparing the fractions by cross-multiplication.
    pub open spec fn lt(self, other: Depth) -> bool {
        ||| self.base < other.base
        ||| (self.base == other.base && self.num * other.den < other.num * self.den)
    }

    /// The depth written for an entity whose layer base is `base` and which
    /// received no y-sort offset.
    pub open spec fn spec_whole(base: i64) -> Depth {
        Depth { base, num: 0, den: 1 }
    }

    /// Builds the offset-free depth for a layer base.
    pub fn whole(base: i64) -> (r: Depth)
        ensures
            r == Depth::spec_whole(base),
            r.wf(),
    {
        Depth { base, num: 0, den: 1 }
    }

    /// True on the depth denoting exactly zero, the renderer's default.
    pub open spec fn spec_is_zero(self) -> bool {
        self.base == 0 && self.num == 0
    }

    /// Tests whether this depth denotes exactly zero.
    pub fn is_zero(&self) -> (r: bool)
        ensures
            r == self.spec_is_zero(),
    {
        self.base == 0 && self.num == 0
    }

    /// Compares two depths as rational numbers.
    pub fn is_lt(&self, other: &Depth) -> (r: bool)
        requires
            self.wf(),
            other.wf(),
        ensures
            r == self.lt(*other),
    {
        if self.base < other.base {
            true
        } else if self.base > other.base {
            false
        } else {
            proof {
                vstd::arithmetic::mul::lemma_mul_upper_bound(
                    self.num as int,
                    u64::MAX as int,
                    other.den as int,
                    u64::MAX as int,
                );
                vstd::arithmetic::mul::lemma_mul_upper_bound(
                    other.num as int,
                    u64::MAX as int,
                    self.den as int,
                    u64::MAX as int,
                );
            }
            (self.num as u128) * (other.den as u128) < (other.num as u128) * (self.den as u128)
        }
    }
}

/// Two well-formed depths with distinct bases order by their bases alone:
/// no fractional offset can lift a depth across an integer boundary.
pub proof fn lemma_base_order_decides(a: Depth, b: Depth)
    requires
        a.wf(),
        b.wf(),
        a.base < b.base,
    ensures
        a.lt(b),
        !b.lt(a),
{
}

/// The strict depth order is irreflexive and asymmetric: a collision-free
/// assignment can never order two depths both ways.
pub proof fn lemma_lt_asymmetric(a: Depth, b: Depth)
    requires
        a.lt(b),
    ensures
        !b.lt(a),
        a != b,
{
}

/// With a common denominator, depths sharing a base order strictly by
/// numerator: offsets `i / n` are strictly increasing in `i`.
pub proof fn lemma_same_base_order(a: Depth, b: Depth)
    requires
        a.base == b.base,
        a.den == b.den,
        a.den >= 1,
        a.num < b.num,
    ensures
        a.lt(b),
{
    broadcast use vstd::arithmetic::mul::lemma_mul_strict_inequality;

}

} // verus!
