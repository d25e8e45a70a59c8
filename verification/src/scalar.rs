//! Exact fractional numbers.
//!
//! Blur deviations, pixel scales and layout coordinates are fractions. They are
//! carried as exact ratios of integers, so that halving and comparing them
//! never rounds.

use vstd::prelude::*;

verus! {

/// The ratio `numer / denom`. A well-formed scalar has a positive denominator.
///
/// Equality of two scalars is equality of both fields: `1/2` and `2/4` denote
/// the same number but are different values of this type.
#[derive(Clone, Copy, Debug, PartialEq, Eq, Structural, Hash)]
pub struct Scalar {
    pub numer: i128,
    pub denom: u64,
}

impl Scalar {
    /// Whether the denominator is positive.
    pub open spec fn wf(self) -> bool {
        self.denom > 0
    }

    /// Whether this number is strictly greater than the integer `k`.
    pub open spec fn gt_int(self, k: int) -> bool {
        self.numer > k * self.denom
    }

    /// Whether this number is at most the integer `k`.
    pub open spec fn le_int(self, k: int) -> bool {
        self.numer <= k * self.denom
    }

    /// The whole number `v`.
    pub open spec fn spec_from_int(v: int) -> Self {
        Scalar { numer: v as i128, denom: 1 }
    }

    /// This number rounded to the nearest integer, halves away from zero.
    pub open spec fn round(self) -> int {
        if self.numer >= 0 {
            (2 * self.numer + self.denom) / (2 * self.denom)
        } else {
            -((2 * (-self.numer) + self.denom) / (2 * self.denom))
        }
    }

    /// This number rounded to the nearest integer, halves away from zero, and
    /// then brought into the range of `i32`.
    pub open spec fn round_to_i32(self) -> int {
        if self.round() < i32::MIN {
            i32::MIN as int
        } else if self.round() > i32::MAX {
            i32::MAX as int
        } else {
            self.round()
        }
    }

    /// The ratio of `numer` to `denom`.
    pub fn new(numer: i128, denom: u64) -> (s: Self)
        requires
            denom > 0,
        ensures
            s == (Scalar { numer, denom }),
            s.wf(),
    {
        Scalar { numer, denom }
    }

    /// The whole number `v`.
    pub fn from_int(v: i32) -> (s: Self)
        ensures
            s == Self::spec_from_int(v as int),
            s.wf(),
    {
        Scalar { numer: v as i128, denom: 1 }
    }

    /// The whole number `v`.
    pub fn from_usize(v: usize) -> (s: Self)
        ensures
            s == Self::spec_from_int(v as int),
            s.wf(),
    {
        Scalar { numer: v as i128, denom: 1 }
    }

    /// The number zero.
    pub fn zero() -> (s: Self)
        ensures
            s == Self::spec_from_int(0),
            s.wf(),
    {
        Scalar { numer: 0, denom: 1 }
    }

    /// Tells whether this number is strictly greater than `k`.
    pub fn exceeds(&self, k: i32) -> (b: bool)
        ensures
            b == self.gt_int(k as int),
    {
        let d: i128 = self.denom as i128;
        let kk: i128 = k as i128;
        proof {
            lemma_product_bound(kk as int, d as int);
        }
        self.numer > kk * d
    }

    /// Tells whether this number is at most `k`.
    pub fn at_most(&self, k: i32) -> (b: bool)
        ensures
            b == self.le_int(k as int),
    {
        !self.exceeds(k)
    }

    /// Half of this number, exactly.
    pub fn halved(&self) -> (h: Self)
        requires
            2 * self.denom <= u64::MAX,
        ensures
            h.numer == self.numer,
            h.denom == 2 * self.denom,
            self.wf() ==> h.wf(),
    {
        Scalar { numer: self.numer, denom: self.denom * 2 }
    }

    /// This number rounded to the nearest integer, halves away from zero, and
    /// clamped to the range of `i32`.
    pub fn rounded(&self) -> (r: i32)
        requires
            self.wf(),
        ensures
            r == self.round_to_i32(),
    {
        let d: i128 = self.denom as i128;
        let n: i128 = self.numer;
        let big: i128 = 0x1_0000_0000 * d;
        if n >= 0 {
            if n >= big {
                proof {
                    lemma_round_large(n as int, d as int);
                }
                i32::MAX
            } else {
                let q: i128 = (2 * n + d) / (2 * d);
                if q > i32::MAX as i128 {
                    i32::MAX
                } else {
                    q as i32
                }
            }
        } else {
            if n <= -big {
                proof {
                    lemma_round_large(-n as int, d as int);
                }
                i32::MIN
            } else {
                let q: i128 = (2 * (-n) + d) / (2 * d);
                if -q < i32::MIN as i128 {
                    i32::MIN
                } else {
                    (-q) as i32
                }
            }
        }
    }
}

/// A ratio of at least 2^32 rounds to at least 2^32.
proof fn lemma_round_large(n: int, d: int)
    requires
        d > 0,
        n >= 0x1_0000_0000 * d,
    ensures
        (2 * n + d) / (2 * d) >= 0x1_0000_0000,
{
    assert((2 * n + d) / (2 * d) >= 0x1_0000_0000) by (nonlinear_arith)
        requires
            d > 0,
            n >= 0x1_0000_0000 * d,
    {
        assert(2 * n + d >= 0x1_0000_0000 * (2 * d));
        assert((0x1_0000_0000 * (2 * d)) / (2 * d) == 0x1_0000_0000);
    }
}

/// A product of a 32-bit factor and a 64-bit factor fits in 128 bits.
proof fn lemma_product_bound(k: int, d: int)
    requires
        i32::MIN <= k <= i32::MAX,
        0 <= d <= u64::MAX,
    ensures
        i128::MIN <= k * d <= i128::MAX,
{
    assert(-0x8000_0000 * 0x1_0000_0000_0000_0000 <= k * d <= 0x8000_0000
        * 0x1_0000_0000_0000_0000) by (nonlinear_arith)
        requires
            -0x8000_0000 <= k <= 0x8000_0000,
            0 <= d <= 0x1_0000_0000_0000_0000,
    ;
}

} // verus!
