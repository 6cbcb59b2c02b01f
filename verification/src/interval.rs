//! Intervals with binary64 bounds, held as bit patterns, and enclosures:
//! intervals with a decoration.

use crate::float::{
    abs_bits, at_most, decode, is_finite, is_nan, lemma_decode, magnitude_bits, round, round_sum, ticks,
    Dyadic, Rounding, INFINITY_BITS, MAX_BITS, NAN_BITS, SIGN_BIT,
};
use vstd::arithmetic::power2::{lemma_pow2_unfold, pow2};
use vstd::prelude::*;

verus! {

/// A closed range of reals whose bounds are binary64 numbers, each held as its
/// bit pattern.
#[derive(Clone, Copy, Debug, PartialEq, Eq, Hash, Structural)]
pub struct Interval {
    pub inf: u64,
    pub sup: u64,
}

/// What is known of a function over the range that an enclosure was computed
/// from, weakest first.
#[derive(Clone, Copy, Debug, PartialEq, Eq, Hash, Structural)]
pub enum Decoration {
    /// Not an interval at all.
    Ill,
    /// Nothing is known.
    Trv,
    /// Defined everywhere.
    Def,
    /// Defined and continuous.
    Dac,
    /// Defined, continuous and bounded.
    Com,
}

/// A range that is guaranteed to contain a value, with its decoration.
#[derive(Clone, Copy, Debug, PartialEq, Eq, Hash, Structural)]
pub struct Enclosure {
    pub interval: Interval,
    pub decoration: Decoration,
}

/// The bit pattern of -infinity.
pub const NEG_INFINITY_BITS: u64 = 0xfff0_0000_0000_0000;

/// A bound as it is stored: a zero as -0 where it is a lower bound and as +0
/// where it is an upper bound.
pub open spec fn stored_bound(b: u64, lower: bool) -> u64 {
    if abs_bits(b) == 0 {
        if lower {
            SIGN_BIT
        } else {
            0
        }
    } else {
        b
    }
}

/// A bound as it is stored.
pub fn store_bound(b: u64, lower: bool) -> (r: u64)
    ensures
        r == stored_bound(b, lower),
{
    if magnitude_bits(b) == 0 {
        if lower {
            SIGN_BIT
        } else {
            0
        }
    } else {
        b
    }
}

/// The number with the opposite sign.
pub open spec fn negated(d: Dyadic) -> Dyadic {
    Dyadic { negative: !d.negative, mantissa: d.mantissa, exponent: d.exponent }
}

/// Half the number.
pub open spec fn halved(d: Dyadic) -> Dyadic {
    Dyadic { negative: d.negative, mantissa: d.mantissa, exponent: (d.exponent - 1) as i64 }
}

impl Interval {
    /// Whether the interval is the empty set, which is stored with the bounds
    /// +infinity and -infinity.
    pub open spec fn is_empty_spec(self) -> bool {
        self.inf == INFINITY_BITS && self.sup == NEG_INFINITY_BITS
    }

    /// Whether the bounds are those of an interval: the empty set, or two
    /// numbers in order, the lower not +infinity, the upper not -infinity,
    /// and zeros stored as -0 below and +0 above.
    pub open spec fn wf(self) -> bool {
        self.is_empty_spec() || (!is_nan(self.inf) && !is_nan(self.sup) && ticks(self.inf) <= ticks(self.sup)
            && self.inf != INFINITY_BITS && self.sup != NEG_INFINITY_BITS && self.inf == stored_bound(
            self.inf,
            true,
        ) && self.sup == stored_bound(self.sup, false))
    }

    /// Whether the interval is not empty and bounded.
    pub open spec fn is_common_spec(self) -> bool {
        !self.is_empty_spec() && is_finite(self.inf) && is_finite(self.sup)
    }

    /// Whether the interval holds the value `v`, given in ticks.
    pub open spec fn contains(self, v: int) -> bool {
        !self.is_empty_spec() && (self.inf == NEG_INFINITY_BITS || ticks(self.inf) <= v) && (self.sup
            == INFINITY_BITS || v <= ticks(self.sup))
    }

    /// Whether every value of the interval is a value of `other`.
    pub open spec fn subset_spec(self, other: Interval) -> bool {
        self.is_empty_spec() || (!other.is_empty_spec() && ticks(other.inf) <= ticks(self.inf) && ticks(
            self.sup,
        ) <= ticks(other.sup))
    }

    /// The midpoint as a binary64 number: for a bounded interval the number
    /// nearest to the midpoint, of two that are as near the one with an even
    /// last digit, a zero as +0; for all reals 0; for an interval that is
    /// unbounded on one side the finite number that is farthest on that
    /// side; for the empty set a NaN.
    pub open spec fn mid_spec(self) -> u64 {
        if self.is_empty_spec() {
            NAN_BITS
        } else if self.is_common_spec() {
            stored_bound(round((ticks(self.inf) + ticks(self.sup)) / 2, Rounding::Nearest) as u64, false)
        } else if self.inf == NEG_INFINITY_BITS && self.sup == INFINITY_BITS {
            0
        } else if self.inf == NEG_INFINITY_BITS {
            (SIGN_BIT + MAX_BITS) as u64
        } else {
            MAX_BITS
        }
    }

    /// The radius as a binary64 number: for a bounded interval the least
    /// number `r` such that the interval lies within `[m - r, m + r]`, where
    /// `m` is its midpoint as a binary64 number, a zero as +0; for an
    /// unbounded interval +infinity; for the empty set a NaN.
    pub open spec fn rad_spec(self) -> u64 {
        let m = self.mid_spec();
        if self.is_empty_spec() {
            NAN_BITS
        } else if !self.is_common_spec() {
            INFINITY_BITS
        } else if is_finite(m) {
            let below = round(ticks(m) - ticks(self.inf), Rounding::Up) as u64;
            let above = round(ticks(self.sup) - ticks(m), Rounding::Up) as u64;
            if ticks(below) <= ticks(above) {
                stored_bound(above, false)
            } else {
                stored_bound(below, false)
            }
        } else {
            INFINITY_BITS
        }
    }

    /// The empty set.
    pub fn empty() -> (r: Interval)
        ensures
            r.is_empty_spec(),
            r.wf(),
    {
        Interval { inf: INFINITY_BITS, sup: NEG_INFINITY_BITS }
    }

    /// The range of all reals.
    pub fn entire() -> (r: Interval)
        ensures
            r == (Interval { inf: NEG_INFINITY_BITS, sup: INFINITY_BITS }),
            r.wf(),
    {
        proof {
            crate::float::lemma_infinity_magnitude();
            assert(abs_bits(NEG_INFINITY_BITS) == INFINITY_BITS);
            assert(crate::float::magnitude(NEG_INFINITY_BITS) == crate::float::magnitude(INFINITY_BITS));
        }
        Interval { inf: NEG_INFINITY_BITS, sup: INFINITY_BITS }
    }

    /// The interval with the bounds `a` and `b`, given as bit patterns of
    /// binary64 numbers, where `a <= b`, `a` is not +infinity and `b` is not
    /// -infinity; `None` for other bounds, and so for a NaN.
    pub fn new(a: u64, b: u64) -> (r: Option<Interval>)
        ensures
            r is Some == (!is_nan(a) && !is_nan(b) && ticks(a) <= ticks(b) && a != INFINITY_BITS && b
                != NEG_INFINITY_BITS),
            r is Some ==> r->Some_0 == (Interval { inf: stored_bound(a, true), sup: stored_bound(b, false) })
                && r->Some_0.wf() && !r->Some_0.is_empty_spec(),
    {
        if magnitude_bits(a) > INFINITY_BITS || magnitude_bits(b) > INFINITY_BITS {
            return None;
        }
        if at_most(a, b) && a != INFINITY_BITS && b != NEG_INFINITY_BITS {
            let lo = store_bound(a, true);
            let hi = store_bound(b, false);
            proof {
                crate::float::lemma_infinity_magnitude();
                assert(ticks(lo) == ticks(a));
                assert(ticks(hi) == ticks(b));
            }
            Some(Interval { inf: lo, sup: hi })
        } else {
            None
        }
    }

    /// Whether the interval is the empty set.
    pub fn is_empty(&self) -> (r: bool)
        ensures
            r == self.is_empty_spec(),
    {
        self.inf == INFINITY_BITS && self.sup == NEG_INFINITY_BITS
    }

    /// Whether the interval is not empty and bounded.
    pub fn is_common_interval(&self) -> (r: bool)
        ensures
            r == self.is_common_spec(),
    {
        !self.is_empty() && magnitude_bits(self.inf) < INFINITY_BITS && magnitude_bits(self.sup)
            < INFINITY_BITS
    }

    /// Whether every value of the interval is a value of `other`.
    pub fn subset(&self, other: &Interval) -> (r: bool)
        requires
            self.wf(),
            other.wf(),
        ensures
            r == self.subset_spec(*other),
    {
        if self.is_empty() {
            return true;
        }
        if other.is_empty() {
            return false;
        }
        at_most(other.inf, self.inf) && at_most(self.sup, other.sup)
    }

    /// The midpoint of the interval as a binary64 number.
    pub fn mid(&self) -> (r: u64)
        requires
            self.wf(),
        ensures
            r == self.mid_spec(),
            is_nan(r) == self.is_empty_spec(),
    {
        if self.is_empty() {
            return NAN_BITS;
        }
        if !self.is_common_interval() {
            return if self.inf == NEG_INFINITY_BITS && self.sup == INFINITY_BITS {
                0
            } else if self.inf == NEG_INFINITY_BITS {
                SIGN_BIT + MAX_BITS
            } else {
                MAX_BITS
            };
        }
        let a = decode(self.inf);
        let b = decode(self.sup);
        proof {
            lemma_decode(self.inf);
            lemma_decode(self.sup);
            lemma_halved(a);
            lemma_halved(b);
        }
        let ha = Dyadic { negative: a.negative, mantissa: a.mantissa, exponent: a.exponent - 1 };
        let hb = Dyadic { negative: b.negative, mantissa: b.mantissa, exponent: b.exponent - 1 };
        store_bound(round_sum(ha, hb, Rounding::Nearest), false)
    }

    /// The radius of the interval as a binary64 number.
    pub fn rad(&self) -> (r: u64)
        requires
            self.wf(),
        ensures
            r == self.rad_spec(),
            is_nan(r) == self.is_empty_spec(),
    {
        if self.is_empty() {
            return NAN_BITS;
        }
        if !self.is_common_interval() {
            return INFINITY_BITS;
        }
        let m = self.mid();
        if magnitude_bits(m) >= INFINITY_BITS {
            return INFINITY_BITS;
        }
        let dm = decode(m);
        let a = decode(self.inf);
        let b = decode(self.sup);
        proof {
            lemma_decode(m);
            lemma_decode(self.inf);
            lemma_decode(self.sup);
        }
        let below = round_sum(
            dm,
            Dyadic { negative: !a.negative, mantissa: a.mantissa, exponent: a.exponent },
            Rounding::Up,
        );
        let above = round_sum(
            b,
            Dyadic { negative: !dm.negative, mantissa: dm.mantissa, exponent: dm.exponent },
            Rounding::Up,
        );
        if at_most(below, above) {
            store_bound(above, false)
        } else {
            store_bound(below, false)
        }
    }
}

/// A subset holds no value that its superset does not hold.
pub proof fn lemma_subset_contains(x: Interval, y: Interval, v: int)
    requires
        x.wf(),
        y.wf(),
        x.subset_spec(y),
        x.contains(v),
    ensures
        y.contains(v),
{
    crate::float::lemma_infinity_magnitude();
    assert(abs_bits(NEG_INFINITY_BITS) == INFINITY_BITS);
    assert(crate::float::magnitude(NEG_INFINITY_BITS) == crate::float::magnitude(INFINITY_BITS));
    // Only the infinities have the value of an infinity.
    if abs_bits(y.inf) < INFINITY_BITS {
        crate::float::lemma_magnitude_increases(abs_bits(y.inf), INFINITY_BITS);
        assert(crate::float::magnitude(y.inf) == crate::float::magnitude(abs_bits(y.inf)));
    }
    if abs_bits(y.sup) < INFINITY_BITS {
        crate::float::lemma_magnitude_increases(abs_bits(y.sup), INFINITY_BITS);
        assert(crate::float::magnitude(y.sup) == crate::float::magnitude(abs_bits(y.sup)));
    }
}

/// Half an operand has half its value.
pub proof fn lemma_halved(d: Dyadic)
    requires
        d.exponent >= -1074,
    ensures
        2 * halved(d).ticks() == d.ticks(),
{
    lemma_pow2_unfold((d.exponent + 1200) as nat);
    let p = pow2((d.exponent + 1199) as nat);
    assert(d.mantissa as int * (2 * p) == 2 * (d.mantissa as int * p)) by (nonlinear_arith);
}

impl Enclosure {
    /// The enclosure that says nothing: all reals, with the weakest decoration
    /// of an interval.
    pub fn entire() -> (r: Enclosure)
        ensures
            r == (Enclosure {
                interval: Interval { inf: NEG_INFINITY_BITS, sup: INFINITY_BITS },
                decoration: Decoration::Trv,
            }),
    {
        Enclosure { interval: Interval::entire(), decoration: Decoration::Trv }
    }
}

} // verus!
