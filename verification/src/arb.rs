//! Balls: a midpoint of arbitrary precision and a radius of 30 digits.
//!
//! An interval with binary64 bounds is converted to a ball that encloses it,
//! and a ball to an interval that encloses it: every rounding goes outwards,
//! so that the way there and back never loses a value.

use crate::float::{
    abs_bits, bit_length, decode, decode_spec, digits_of, exponent_field, fraction, is_finite, is_negative,
    lemma_decode, lemma_digits_bounds, lemma_pow2_values, magnitude, magnitude_bits, power_of_two, round, round_sum,
    ticks, with_sign, Dyadic, Rounding, HIDDEN_BIT, INFINITY_BITS, NAN_BITS, SIGN_BIT,
};
use crate::interval::{store_bound, stored_bound, Interval, NEG_INFINITY_BITS};
use vstd::arithmetic::power2::{lemma_pow2_adds, lemma_pow2_pos, lemma_pow2_strictly_increases, pow2};
use vstd::prelude::*;

verus! {

/// 2^30: the bound of a radius mantissa, which has 30 digits.
pub const MAG_LIMIT: u64 = 0x4000_0000;

/// 2^29: the least mantissa of a nonzero radius.
pub const MAG_LEAST: u64 = 0x2000_0000;

/// 2^23: the weight of the digits that a radius mantissa drops from a
/// binary64 mantissa.
pub const MAG_DROP: u64 = 0x80_0000;

/// How an arbitrary-precision number is rounded to a binary64 number.
#[derive(Clone, Copy, Debug, PartialEq, Eq, Structural)]
pub enum ArfRound {
    Floor,
    Ceil,
}

/// What kind of number a midpoint is.
#[derive(Clone, Copy, Debug, PartialEq, Eq, Structural)]
pub enum ArfKind {
    Finite,
    PosInf,
    NegInf,
    Nan,
}

/// The state of a midpoint: its kind and, where it is finite, its value.
#[derive(Clone, Copy, Debug, PartialEq, Eq, Structural)]
pub struct ArfData {
    pub kind: ArfKind,
    pub value: Dyadic,
}

/// The state of a radius: `man * 2^(exp - 30)`, or infinity.
#[derive(Clone, Copy, Debug, PartialEq, Eq, Structural)]
pub struct MagData {
    pub exp: i64,
    pub man: u64,
    pub infinite: bool,
}

/// The state of a ball: midpoint and radius.
#[derive(Clone, Copy, Debug, PartialEq, Eq, Structural)]
pub struct ArbData {
    pub mid: ArfData,
    pub rad: MagData,
}

/// The state of a complex ball: real and imaginary part.
#[derive(Clone, Copy, Debug, PartialEq, Eq, Structural)]
pub struct AcbData {
    pub real: ArbData,
    pub imag: ArbData,
}

impl ArfData {
    /// The midpoint zero.
    pub open spec fn zero() -> ArfData {
        ArfData { kind: ArfKind::Finite, value: Dyadic { negative: false, mantissa: 0, exponent: 0 } }
    }

    /// Whether the state is that of a midpoint: a finite one has a value
    /// that the library's arithmetic takes.
    pub open spec fn wf(self) -> bool {
        self.kind == ArfKind::Finite ==> self.value.operand()
    }

    /// The midpoint that the binary64 number with the bit pattern `b` is.
    pub open spec fn of_bits(b: u64) -> ArfData {
        if is_finite(b) {
            ArfData { kind: ArfKind::Finite, value: decode_spec(b) }
        } else if b == INFINITY_BITS {
            ArfData { kind: ArfKind::PosInf, value: Dyadic { negative: false, mantissa: 0, exponent: 0 } }
        } else if b == NEG_INFINITY_BITS {
            ArfData { kind: ArfKind::NegInf, value: Dyadic { negative: false, mantissa: 0, exponent: 0 } }
        } else {
            ArfData { kind: ArfKind::Nan, value: Dyadic { negative: false, mantissa: 0, exponent: 0 } }
        }
    }

    /// The binary64 number that the midpoint is rounded to.
    pub open spec fn rounded(self, mode: Rounding) -> u64 {
        match self.kind {
            ArfKind::Finite => round(self.value.ticks(), mode) as u64,
            ArfKind::PosInf => INFINITY_BITS,
            ArfKind::NegInf => NEG_INFINITY_BITS,
            ArfKind::Nan => NAN_BITS,
        }
    }
}

impl MagData {
    /// The radius zero.
    pub open spec fn zero() -> MagData {
        MagData { exp: 0, man: 0, infinite: false }
    }

    /// The infinite radius.
    pub open spec fn infinity() -> MagData {
        MagData { exp: 0, man: 0, infinite: true }
    }

    /// Whether the state is that of a radius: infinite, zero, or a mantissa
    /// of exactly 30 digits with an exponent that the library's arithmetic
    /// takes.
    pub open spec fn wf(self) -> bool {
        self.infinite || (self.man < MAG_LIMIT && (self.man == 0 || self.man >= MAG_LEAST) && -1080
            <= self.exp <= 1080)
    }

    /// The radius as an operand of the library's arithmetic.
    pub open spec fn value(self) -> Dyadic {
        Dyadic { negative: false, mantissa: self.man, exponent: (self.exp - 30) as i64 }
    }
}

impl ArbData {
    /// The ball `0 ± 0`.
    pub open spec fn zero() -> ArbData {
        ArbData { mid: ArfData::zero(), rad: MagData::zero() }
    }

    /// The ball `0 ± infinity`, which encloses everything.
    pub open spec fn zero_pm_inf() -> ArbData {
        ArbData { mid: ArfData::zero(), rad: MagData::infinity() }
    }

    /// Whether midpoint and radius are well formed.
    pub open spec fn wf(self) -> bool {
        self.mid.wf() && self.rad.wf()
    }

    /// Whether the ball is bounded: a finite midpoint and a finite radius.
    pub open spec fn bounded(self) -> bool {
        self.mid.kind == ArfKind::Finite && !self.rad.infinite
    }

    /// The least value of a bounded ball, in ticks.
    pub open spec fn lower(self) -> int {
        self.mid.value.ticks() - self.rad.value().ticks()
    }

    /// The largest value of a bounded ball, in ticks.
    pub open spec fn upper(self) -> int {
        self.mid.value.ticks() + self.rad.value().ticks()
    }

    /// The interval that encloses the ball: for a bounded ball its least
    /// value rounded down and its largest value rounded up; else all reals.
    pub open spec fn enclosure(self) -> Interval {
        if self.bounded() {
            Interval {
                inf: stored_bound(round(self.lower(), Rounding::Down) as u64, true),
                sup: stored_bound(round(self.upper(), Rounding::Up) as u64, false),
            }
        } else {
            Interval { inf: NEG_INFINITY_BITS, sup: INFINITY_BITS }
        }
    }
}

/// The 53 digits of a finite number that is not zero.
pub open spec fn significand(b: u64) -> nat {
    if exponent_field(b) == 0 {
        fraction(b) * pow2((53 - bit_length(fraction(b))) as nat)
    } else {
        HIDDEN_BIT as nat + fraction(b)
    }
}

/// The binary exponent `e` of a finite number that is not zero: its absolute
/// value is at least `2^(e-1)` and less than `2^e`.
pub open spec fn binary_exponent(b: u64) -> int {
    if exponent_field(b) == 0 {
        bit_length(fraction(b)) - 1074
    } else {
        exponent_field(b) - 1022
    }
}

/// The splitting of a number into a mantissa with an absolute value of at
/// least 1/2 and less than 1, given as a bit pattern, and a binary exponent;
/// a zero, an infinity or a NaN is returned as it is, with the exponent 0.
pub open spec fn frexp_spec(b: u64) -> (u64, int) {
    if abs_bits(b) == 0 || !is_finite(b) {
        (b, 0)
    } else {
        (
            ((if is_negative(b) {
                SIGN_BIT as nat
            } else {
                0
            }) + 0x3fe * HIDDEN_BIT as nat + significand(b) - HIDDEN_BIT as nat) as u64,
            binary_exponent(b),
        )
    }
}

/// The 53 digits of a finite number that is not zero, times its unit, are
/// its magnitude.
pub proof fn lemma_significand(b: u64)
    requires
        is_finite(b),
        abs_bits(b) != 0,
    ensures
        HIDDEN_BIT <= significand(b) < 2 * HIDDEN_BIT,
        -1073 <= binary_exponent(b) <= 1024,
        magnitude(b) == significand(b) * pow2((binary_exponent(b) + 1147) as nat),
{
    let e = exponent_field(b);
    let f = fraction(b);
    lemma_pow2_values();
    if e == 0 {
        let n = bit_length(f);
        assert(f > 0);
        lemma_digits_bounds(f, n);
        if n > 52 {
            lemma_pow2_strictly_increases(52, (n - 1) as nat);
        }
        let k = (53 - n) as nat;
        lemma_pow2_adds((n - 1) as nat, k);
        lemma_pow2_adds(n, k);
        lemma_pow2_pos(k);
        assert(pow2(52) <= f * pow2(k) < pow2(53)) by (nonlinear_arith)
            requires
                pow2((n - 1) as nat) <= f < pow2(n),
                pow2((n - 1) as nat) * pow2(k) == pow2(52),
                pow2(n) * pow2(k) == pow2(53),
                pow2(k) > 0,
        ;
        lemma_pow2_adds(k, (n - 1074 + 1147) as nat);
        assert(f * pow2(126) == (f * pow2(k)) * pow2((n - 1074 + 1147) as nat)) by (nonlinear_arith)
            requires
                pow2(126) == pow2(k) * pow2((n - 1074 + 1147) as nat),
        ;
    }
}

/// Splits a number into mantissa and binary exponent.
pub fn frexp(x: u64) -> (r: (u64, i32))
    ensures
        r.0 == frexp_spec(x).0,
        r.1 == frexp_spec(x).1,
{
    let a = magnitude_bits(x);
    if a == 0 || a >= INFINITY_BITS {
        return (x, 0);
    }
    let e = a / HIDDEN_BIT;
    let f = a % HIDDEN_BIT;
    proof {
        lemma_significand(x);
    }
    if e == 0 {
        let n = digits_of(f as u128);
        proof {
            lemma_pow2_values();
            if n > 52 {
                lemma_pow2_strictly_increases(52, (n - 1) as nat);
            }
        }
        let k = 53 - n;
        let m = (f as u128 * power_of_two(k)) as u64;
        (with_sign(x >= SIGN_BIT, 0x3fe * HIDDEN_BIT + (m - HIDDEN_BIT)), n as i32 - 1074)
    } else {
        (with_sign(x >= SIGN_BIT, 0x3fe * HIDDEN_BIT + f), e as i32 - 1022)
    }
}

/// The radius that encloses the positive finite binary64 number with the bit
/// pattern `b`: its 53 digits rounded up to 30, and where that carries, the
/// mantissa halved and the exponent raised.
pub open spec fn radius_spec(b: u64) -> MagData {
    let man = (fraction(frexp_spec(b).0) + HIDDEN_BIT + MAG_DROP - 1) / MAG_DROP as int;
    if man == MAG_LIMIT {
        MagData { exp: (frexp_spec(b).1 + 1) as i64, man: MAG_LEAST, infinite: false }
    } else {
        MagData { exp: frexp_spec(b).1 as i64, man: man as u64, infinite: false }
    }
}

/// The radius encloses the number that it was made of, and exceeds it by
/// less than one unit of its last digit.
pub proof fn lemma_radius(b: u64)
    requires
        is_finite(b),
        abs_bits(b) != 0,
        !is_negative(b),
    ensures
        radius_spec(b).wf(),
        radius_spec(b).man >= MAG_LEAST,
        -1073 <= radius_spec(b).exp <= 1025,
        radius_spec(b).value().ticks() >= ticks(b),
        radius_spec(b).value().ticks() - ticks(b) < pow2((radius_spec(b).exp + 1170) as nat),
{
    lemma_significand(b);
    lemma_pow2_values();
    let s = significand(b);
    let e = binary_exponent(b);
    let mb = frexp_spec(b).0;
    let h = HIDDEN_BIT as nat;
    assert(mb == 0x3fe * h + (s - h));
    assert(abs_bits(mb) == mb);
    lemma_fundamental_parts(mb, 0x3fe, (s - h) as nat);
    assert(fraction(mb) == s - h);
    let drop = MAG_DROP as nat;
    let man = ((s + drop - 1) / drop as int) as nat;
    let unit = pow2((e + 1147) as nat);
    lemma_pow2_pos((e + 1147) as nat);
    lemma_pow2_adds(23, (e + 1147) as nat);
    vstd::arithmetic::power2::lemma2_to64();
    assert(pow2(23) == drop);
    // man is the least number of dropped units that covers the 53 digits.
    assert(man * drop >= s && man * drop < s + drop && MAG_LEAST <= man <= MAG_LIMIT) by {
        vstd::arithmetic::div_mod::lemma_fundamental_div_mod((s + drop - 1) as int, drop as int);
        vstd::arithmetic::div_mod::lemma_mod_bound((s + drop - 1) as int, drop as int);
        assert(drop * man == man * drop) by (nonlinear_arith);
    }
    let wide = pow2((e + 1170) as nat);
    assert(wide == drop * unit);
    assert(man * wide >= s * unit && man * wide - s * unit < wide) by (nonlinear_arith)
        requires
            man * drop >= s,
            man * drop < s + drop,
            wide == drop * unit,
            unit > 0,
    ;
    if man == MAG_LIMIT {
        lemma_pow2_adds(1, (e + 1170) as nat);
        assert(MAG_LEAST as nat * pow2((e + 1171) as nat) == man * wide) by (nonlinear_arith)
            requires
                pow2((e + 1171) as nat) == 2 * wide,
                man == 2 * MAG_LEAST as nat,
        ;
        lemma_pow2_strictly_increases((e + 1170) as nat, (e + 1171) as nat);
    }
}

/// A bit pattern without sign that is put together from an exponent field
/// and a fraction has these fields.
pub proof fn lemma_fundamental_parts(bits: u64, e: nat, f: nat)
    requires
        bits == e * HIDDEN_BIT + f,
        f < HIDDEN_BIT,
        bits < SIGN_BIT,
    ensures
        exponent_field(bits) == e,
        fraction(bits) == f,
{
    vstd::arithmetic::div_mod::lemma_fundamental_div_mod_converse(
        bits as int,
        HIDDEN_BIT as int,
        e as int,
        f as int,
    );
}

/// Encodes a positive finite binary64 number as a radius that encloses it.
pub fn radius(b: u64) -> (r: MagData)
    requires
        is_finite(b),
        abs_bits(b) != 0,
        !is_negative(b),
    ensures
        r == radius_spec(b),
{
    let (mantissa, exponent) = frexp(b);
    proof {
        lemma_radius(b);
        lemma_significand(b);
    }
    let f = magnitude_bits(mantissa) % HIDDEN_BIT;
    let mut man = (f + HIDDEN_BIT + MAG_DROP - 1) / MAG_DROP;
    let mut exp = exponent as i64;
    if man == MAG_LIMIT {
        // Restrict the mantissa to 30 digits:
        //   100...000 <= man <= 111...111 (30 ones).
        man = MAG_LEAST;
        exp = exp + 1;
    }
    MagData { exp, man, infinite: false }
}

/// An arbitrary-precision number, as the midpoint of a ball is one. It owns
/// its state: a copy is made by `clone` only.
#[derive(Debug, PartialEq, Eq, Structural)]
pub struct Arf(pub ArfData);

/// A ball: a midpoint and a radius. It owns its state: a copy is made by
/// `clone` only.
#[derive(Debug, PartialEq, Eq, Structural)]
pub struct Arb(pub ArbData);

/// A complex ball: a real and an imaginary ball. It owns its state: a copy
/// is made by `clone` only.
#[derive(Debug, PartialEq, Eq, Structural)]
pub struct Acb(pub AcbData);

impl Arf {
    /// Creates an `Arf` value initialized to be zero.
    pub fn new() -> (r: Arf)
        ensures
            r.0 == ArfData::zero(),
            r.0.wf(),
    {
        Arf(ArfData { kind: ArfKind::Finite, value: Dyadic { negative: false, mantissa: 0, exponent: 0 } })
    }

    /// Returns a mutable reference to the underlying state.
    pub fn as_mut_ptr(&mut self) -> (r: &mut ArfData)
        ensures
            *r == old(self).0,
            final(self).0 == *final(r),
    {
        &mut self.0
    }

    /// Returns a reference to the underlying state.
    pub fn as_ptr(&self) -> (r: &ArfData)
        ensures
            *r == self.0,
    {
        &self.0
    }

    /// Rounds `self` to a binary64 number using the given rounding mode, and
    /// returns its bit pattern.
    pub fn to_f64_round(&self, round: ArfRound) -> (r: u64)
        requires
            self.0.wf(),
        ensures
            r == self.0.rounded(
                match round {
                    ArfRound::Floor => Rounding::Down,
                    ArfRound::Ceil => Rounding::Up,
                },
            ),
    {
        let mode = match round {
            ArfRound::Floor => Rounding::Down,
            ArfRound::Ceil => Rounding::Up,
        };
        match self.0.kind {
            ArfKind::Finite => round_sum(
                self.0.value,
                Dyadic { negative: false, mantissa: 0, exponent: 0 },
                mode,
            ),
            ArfKind::PosInf => INFINITY_BITS,
            ArfKind::NegInf => NEG_INFINITY_BITS,
            ArfKind::Nan => NAN_BITS,
        }
    }
}

impl Clone for Arf {
    /// A number of its own with the same state.
    fn clone(&self) -> (r: Arf)
        ensures
            r == *self,
    {
        Arf(self.0)
    }
}

impl Clone for Arb {
    /// A ball of its own with the same state.
    fn clone(&self) -> (r: Arb)
        ensures
            r == *self,
    {
        Arb(self.0)
    }
}

impl Clone for Acb {
    /// A complex ball of its own with the same state.
    fn clone(&self) -> (r: Acb)
        ensures
            r == *self,
    {
        Acb(self.0)
    }
}

/// The midpoint that the binary64 number with the bit pattern `b` is.
pub fn midpoint(b: u64) -> (r: ArfData)
    ensures
        r == ArfData::of_bits(b),
        r.wf(),
{
    let zero = Dyadic { negative: false, mantissa: 0, exponent: 0 };
    if magnitude_bits(b) < INFINITY_BITS {
        proof {
            lemma_decode(b);
        }
        ArfData { kind: ArfKind::Finite, value: decode(b) }
    } else if b == INFINITY_BITS {
        ArfData { kind: ArfKind::PosInf, value: zero }
    } else if b == NEG_INFINITY_BITS {
        ArfData { kind: ArfKind::NegInf, value: zero }
    } else {
        ArfData { kind: ArfKind::Nan, value: zero }
    }
}

impl Arb {
    /// The ball that encloses the interval `x`: `0 ± infinity` where `x` is
    /// empty or unbounded, or where the midpoint or the radius of `x` is not
    /// a finite number; else the midpoint of `x` with its radius rounded up
    /// to 30 digits.
    pub open spec fn of_interval(x: Interval) -> ArbData {
        let m = x.mid_spec();
        let r = x.rad_spec();
        if !x.is_common_spec() || !is_finite(m) || !is_finite(r) || (is_negative(r) && abs_bits(r) != 0) {
            ArbData::zero_pm_inf()
        } else if abs_bits(r) == 0 {
            ArbData { mid: ArfData::of_bits(m), rad: MagData::zero() }
        } else {
            ArbData { mid: ArfData::of_bits(m), rad: radius_spec(r) }
        }
    }

    /// Creates an `Arb` interval initialized to be `[0 ± 0]`.
    pub fn new() -> (r: Arb)
        ensures
            r.0 == ArbData::zero(),
            r.0.wf(),
    {
        Arb(
            ArbData {
                mid: ArfData { kind: ArfKind::Finite, value: Dyadic { negative: false, mantissa: 0, exponent: 0 } },
                rad: MagData { exp: 0, man: 0, infinite: false },
            },
        )
    }

    /// Returns a mutable reference to the underlying state.
    pub fn as_mut_ptr(&mut self) -> (r: &mut ArbData)
        ensures
            *r == old(self).0,
            final(self).0 == *final(r),
    {
        &mut self.0
    }

    /// Returns a reference to the underlying state.
    pub fn as_ptr(&self) -> (r: &ArbData)
        ensures
            *r == self.0,
    {
        &self.0
    }

    /// Creates an `Arb` interval `[x ± 0]` of the binary64 number with the
    /// bit pattern `x`.
    pub fn from_f64(x: u64) -> (r: Arb)
        ensures
            r.0 == (ArbData { mid: ArfData::of_bits(x), rad: MagData::zero() }),
            r.0.wf(),
    {
        let mut y = Self::new();
        y.0.mid = midpoint(x);
        y
    }

    /// Creates an `Arb` interval that encloses `x`.
    pub fn from_interval(x: Interval) -> (r: Arb)
        requires
            x.wf(),
        ensures
            r.0 == Self::of_interval(x),
            r.0.wf(),
    {
        let mut y = Self::new();
        if !x.is_common_interval() {
            y.0.rad = MagData { exp: 0, man: 0, infinite: true };
            return y;
        }
        let mid = x.mid();
        let rad = x.rad();
        let rad_magnitude = magnitude_bits(rad);
        if magnitude_bits(mid) >= INFINITY_BITS || rad_magnitude >= INFINITY_BITS || (rad >= SIGN_BIT
            && rad_magnitude != 0) {
            y.0.rad = MagData { exp: 0, man: 0, infinite: true };
            return y;
        }
        y.0.mid = midpoint(mid);
        if rad_magnitude != 0 {
            proof {
                lemma_radius(rad);
            }
            y.0.rad = radius(rad);
        }
        y
    }

    /// Returns an [`Interval`] that encloses `self`.
    pub fn to_interval(&self) -> (r: Interval)
        requires
            self.0.wf(),
        ensures
            r == self.0.enclosure(),
            r.wf(),
    {
        if self.0.rad.infinite {
            return Interval::entire();
        }
        match self.0.mid.kind {
            ArfKind::Finite => {},
            _ => {
                return Interval::entire();
            },
        }
        let rad = Dyadic { negative: false, mantissa: self.0.rad.man, exponent: self.0.rad.exp - 30 };
        let minus = Dyadic { negative: true, mantissa: self.0.rad.man, exponent: self.0.rad.exp - 30 };
        let a = round_sum(self.0.mid.value, minus, Rounding::Down);
        let b = round_sum(self.0.mid.value, rad, Rounding::Up);
        proof {
            lemma_enclosure_wf(self.0);
        }
        Interval { inf: store_bound(a, true), sup: store_bound(b, false) }
    }
}

/// The enclosure of a ball is an interval.
pub proof fn lemma_enclosure_wf(ball: ArbData)
    requires
        ball.wf(),
    ensures
        ball.enclosure().wf(),
        !ball.enclosure().is_empty_spec(),
        ball.bounded() ==> (ball.enclosure().inf == NEG_INFINITY_BITS || (is_finite(ball.enclosure().inf)
            && ticks(ball.enclosure().inf) <= ball.lower())),
        ball.bounded() ==> (ball.enclosure().sup == INFINITY_BITS || (is_finite(ball.enclosure().sup)
            && ticks(ball.enclosure().sup) >= ball.upper())),
{
    crate::float::lemma_infinity_magnitude();
    assert(abs_bits(NEG_INFINITY_BITS) == INFINITY_BITS);
    assert(magnitude(NEG_INFINITY_BITS) == magnitude(INFINITY_BITS));
    if ball.bounded() {
        let lo = round(ball.lower(), Rounding::Down) as u64;
        let hi = round(ball.upper(), Rounding::Up) as u64;
        crate::float::lemma_round_down(ball.lower());
        crate::float::lemma_round_up(ball.upper());
        lemma_pow2_pos((ball.rad.exp - 30 + 1200) as nat);
        assert(ball.rad.value().ticks() >= 0) by (nonlinear_arith)
            requires
                ball.rad.value().ticks() == ball.rad.man as int * pow2((ball.rad.exp - 30 + 1200) as nat),
        ;
        let a = stored_bound(lo, true);
        let b = stored_bound(hi, false);
        assert(ticks(a) == ticks(lo) && ticks(b) == ticks(hi));
        assert(abs_bits(a) == abs_bits(lo) && abs_bits(b) == abs_bits(hi));
        // A finite number lies between the infinities.
        if abs_bits(lo) < INFINITY_BITS {
            crate::float::lemma_magnitude_increases(abs_bits(lo), INFINITY_BITS);
            assert(magnitude(lo) == magnitude(abs_bits(lo)));
        }
        if abs_bits(hi) < INFINITY_BITS {
            crate::float::lemma_magnitude_increases(abs_bits(hi), INFINITY_BITS);
            assert(magnitude(hi) == magnitude(abs_bits(hi)));
        }
    }
}

impl Acb {
    /// Creates an `Acb` interval initialized to be `[0 ± 0] + [0 ± 0]i`.
    pub fn new() -> (r: Acb)
        ensures
            r.0 == (AcbData { real: ArbData::zero(), imag: ArbData::zero() }),
    {
        Acb(AcbData { real: Arb::new().0, imag: Arb::new().0 })
    }

    /// Returns a mutable reference to the underlying state.
    pub fn as_mut_ptr(&mut self) -> (r: &mut AcbData)
        ensures
            *r == old(self).0,
            final(self).0 == *final(r),
    {
        &mut self.0
    }

    /// Returns a reference to the underlying state.
    pub fn as_ptr(&self) -> (r: &AcbData)
        ensures
            *r == self.0,
    {
        &self.0
    }

    /// Returns the real part of `self`.
    pub fn real_part(&self) -> (r: Arb)
        ensures
            r.0 == self.0.real,
    {
        Arb(self.0.real)
    }
}

impl From<Arb> for Acb {
    /// The complex ball with the real part `x` and the imaginary part zero.
    fn from(x: Arb) -> (r: Acb) {
        Acb(AcbData { real: x.0, imag: Arb::new().0 })
    }
}

impl vstd::std_specs::convert::FromSpecImpl<Arb> for Acb {
    open spec fn obeys_from_spec() -> bool {
        true
    }

    open spec fn from_spec(x: Arb) -> Acb {
        Acb(AcbData { real: x.0, imag: ArbData::zero() })
    }
}

/// Converting an interval to a ball and back yields a superset of it.
pub proof fn lemma_inclusion(x: Interval)
    requires
        x.wf(),
    ensures
        x.subset_spec(Arb::of_interval(x).enclosure()),
{
    let ball = Arb::of_interval(x);
    let y = ball.enclosure();
    crate::float::lemma_infinity_magnitude();
    assert(abs_bits(NEG_INFINITY_BITS) == INFINITY_BITS);
    assert(magnitude(NEG_INFINITY_BITS) == magnitude(INFINITY_BITS));
    if !x.is_empty_spec() {
        // Every number that is not a NaN lies between the infinities.
        if abs_bits(x.inf) < INFINITY_BITS {
            crate::float::lemma_magnitude_increases(abs_bits(x.inf), INFINITY_BITS);
        }
        if abs_bits(x.sup) < INFINITY_BITS {
            crate::float::lemma_magnitude_increases(abs_bits(x.sup), INFINITY_BITS);
        }
        assert(magnitude(x.inf) == magnitude(abs_bits(x.inf)));
        assert(magnitude(x.sup) == magnitude(abs_bits(x.sup)));
        if ball.bounded() {
            let m = x.mid_spec();
            let r = x.rad_spec();
            let below = round(ticks(m) - ticks(x.inf), Rounding::Up) as u64;
            let above = round(ticks(x.sup) - ticks(m), Rounding::Up) as u64;
            lemma_decode(m);
            crate::float::lemma_round_up(ticks(m) - ticks(x.inf));
            crate::float::lemma_round_up(ticks(x.sup) - ticks(m));
            // The radius is not below either distance from the midpoint.
            if abs_bits(r) < INFINITY_BITS {
                crate::float::lemma_magnitude_increases(abs_bits(r), INFINITY_BITS);
                assert(magnitude(r) == magnitude(abs_bits(r)));
            }
            assert(ticks(r) >= ticks(m) - ticks(x.inf));
            assert(ticks(r) >= ticks(x.sup) - ticks(m));
            if abs_bits(r) != 0 {
                lemma_radius(r);
            } else {
                assert(ball.rad.value().ticks() == 0) by (nonlinear_arith)
                    requires
                        ball.rad.man == 0,
                        ball.rad.value().ticks() == ball.rad.man as int * pow2(
                            (ball.rad.exp - 30 + 1200) as nat,
                        ),
                ;
                assert(ticks(r) == 0) by {
                    assert(magnitude(r) == 0) by (nonlinear_arith)
                        requires
                            magnitude(r) == fraction(r) * pow2(126),
                            fraction(r) == 0,
                    ;
                }
            }
            assert(ball.wf());
            lemma_enclosure_wf(ball);
            assert(ball.lower() <= ticks(x.inf));
            assert(ball.upper() >= ticks(x.sup));
        }
    }
}

/// Converting a finite binary64 number to a ball and back yields an
/// interval whose bounds both are that number.
pub proof fn lemma_point_round_trip(x: u64)
    requires
        is_finite(x),
    ensures
        (ArbData { mid: ArfData::of_bits(x), rad: MagData::zero() }).enclosure() == (Interval {
            inf: stored_bound(x, true),
            sup: stored_bound(x, false),
        }),
        ticks(stored_bound(x, true)) == ticks(x),
        ticks(stored_bound(x, false)) == ticks(x),
{
    let ball = ArbData { mid: ArfData::of_bits(x), rad: MagData::zero() };
    lemma_decode(x);
    crate::float::lemma_infinity_magnitude();
    lemma_pow2_pos(1170);
    assert(ball.rad.value().ticks() == 0) by (nonlinear_arith)
        requires
            ball.rad.man == 0,
            ball.rad.value().ticks() == ball.rad.man as int * pow2((ball.rad.exp - 30 + 1200) as nat),
    ;
    crate::float::lemma_round_finite(x, Rounding::Down);
    crate::float::lemma_round_finite(x, Rounding::Up);
    if abs_bits(x) == 0 {
        assert(magnitude(x) == 0) by (nonlinear_arith)
            requires
                magnitude(x) == fraction(x) * pow2(126),
                fraction(x) == 0,
        ;
    }
}

} // verus!
