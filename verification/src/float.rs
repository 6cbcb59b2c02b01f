//! Binary64 numbers as bit patterns, and the exact sum of two of them
//! rounded down, up or to nearest.
//!
//! The value of a number is stated in ticks: one tick is `2^-1200`, fine
//! enough for every number that the library forms from binary64 numbers and
//! ball radii.

use vstd::arithmetic::div_mod::lemma_fundamental_div_mod_converse;
use vstd::arithmetic::power2::{
    lemma_pow2_adds, lemma_pow2_pos, lemma_pow2_strictly_increases, lemma_pow2_unfold, pow2,
};
use vstd::prelude::*;

verus! {

/// 2^52: the weight of the exponent field in a bit pattern.
pub const HIDDEN_BIT: u64 = 0x10_0000_0000_0000;

/// 2^63: the sign bit.
pub const SIGN_BIT: u64 = 0x8000_0000_0000_0000;

/// The bit pattern of +infinity.
pub const INFINITY_BITS: u64 = 0x7ff0_0000_0000_0000;

/// The bit pattern of a quiet NaN.
pub const NAN_BITS: u64 = 0x7ff8_0000_0000_0000;

/// The bit pattern of the largest finite number.
pub const MAX_BITS: u64 = 0x7fef_ffff_ffff_ffff;

/// The bit pattern without its sign.
pub open spec fn abs_bits(b: u64) -> u64 {
    if b >= SIGN_BIT {
        (b - SIGN_BIT) as u64
    } else {
        b
    }
}

/// Whether the sign bit is set.
pub open spec fn is_negative(b: u64) -> bool {
    b >= SIGN_BIT
}

/// The exponent field of a bit pattern.
pub open spec fn exponent_field(b: u64) -> nat {
    (abs_bits(b) / HIDDEN_BIT) as nat
}

/// The fraction field of a bit pattern.
pub open spec fn fraction(b: u64) -> nat {
    (abs_bits(b) % HIDDEN_BIT) as nat
}

/// Whether the bit pattern is a NaN.
pub open spec fn is_nan(b: u64) -> bool {
    abs_bits(b) > INFINITY_BITS
}

/// Whether the bit pattern is a finite number.
pub open spec fn is_finite(b: u64) -> bool {
    abs_bits(b) < INFINITY_BITS
}

/// The absolute value in ticks of the number with the bit pattern `b`, where
/// it is not a NaN; infinity counts as `2^1024`.
pub open spec fn magnitude(b: u64) -> nat {
    let e = exponent_field(b);
    let f = fraction(b);
    if e == 0 {
        f * pow2(126)
    } else {
        (HIDDEN_BIT as nat + f) * pow2(125 + e)
    }
}

/// The value in ticks of the number with the bit pattern `b`.
pub open spec fn ticks(b: u64) -> int {
    if is_negative(b) {
        -(magnitude(b) as int)
    } else {
        magnitude(b) as int
    }
}

/// The number of binary digits of `n`.
pub open spec fn bit_length(n: nat) -> nat
    decreases n,
{
    if n == 0 {
        0
    } else {
        1 + bit_length(n / 2)
    }
}

/// The exponent in ticks of the unit in the last place at the magnitude `m`:
/// 53 digits are kept, and no unit is finer than `2^-1074`.
pub open spec fn unit_exponent(m: nat) -> nat {
    if bit_length(m) >= 179 {
        (bit_length(m) - 53) as nat
    } else {
        126
    }
}

/// The bit pattern of `q` units of `2^u` ticks, for `q <= 2^53`.
pub open spec fn encode(q: nat, u: nat) -> nat {
    ((u - 126) * HIDDEN_BIT + q) as nat
}

/// How an exact value is rounded to a binary64 number.
#[derive(Clone, Copy, Debug, PartialEq, Eq, Structural)]
pub enum Rounding {
    /// To the largest number that is not above it.
    Down,
    /// To the least number that is not below it.
    Up,
    /// To the nearest number, to an even last digit where two are as near.
    Nearest,
}

/// The whole units of a magnitude, its division by the unit rounded as `mode`
/// says, where `Down` is towards zero and `Up` away from zero.
pub open spec fn round_quotient(m: nat, unit: nat, mode: Rounding) -> nat {
    let q = m / unit;
    let r = m % unit;
    match mode {
        Rounding::Down => q,
        Rounding::Up => if r == 0 {
            q
        } else {
            q + 1
        },
        Rounding::Nearest => if 2 * r < unit {
            q
        } else if 2 * r > unit {
            q + 1
        } else if q % 2 == 0 {
            q
        } else {
            q + 1
        },
    }
}

/// The bit pattern of the magnitude `m` rounded as `mode` says, where `Down`
/// is towards zero and `Up` away from zero. A magnitude of `2^1024` or more
/// gives the largest finite number towards zero and infinity otherwise.
pub open spec fn round_magnitude(m: nat, mode: Rounding) -> nat {
    if m >= pow2(2224) {
        if mode == Rounding::Down {
            MAX_BITS as nat
        } else {
            INFINITY_BITS as nat
        }
    } else {
        encode(round_quotient(m, pow2(unit_exponent(m)), mode), unit_exponent(m))
    }
}

/// The rounding of magnitudes that rounds a value of the given sign as
/// `mode` says.
pub open spec fn magnitude_mode(negative: bool, mode: Rounding) -> Rounding {
    match mode {
        Rounding::Down => if negative {
            Rounding::Up
        } else {
            Rounding::Down
        },
        Rounding::Up => if negative {
            Rounding::Down
        } else {
            Rounding::Up
        },
        Rounding::Nearest => Rounding::Nearest,
    }
}

/// The bit pattern of the binary64 number that the value `v`, in ticks, is
/// rounded to. Zero is rounded to +0.
pub open spec fn round(v: int, mode: Rounding) -> nat {
    if v >= 0 {
        round_magnitude(v as nat, magnitude_mode(false, mode))
    } else {
        SIGN_BIT as nat + round_magnitude((-v) as nat, magnitude_mode(true, mode))
    }
}

/// A number of the form `±mantissa * 2^exponent`.
#[derive(Clone, Copy, Debug, PartialEq, Eq, Structural)]
pub struct Dyadic {
    pub negative: bool,
    pub mantissa: u64,
    pub exponent: i64,
}

impl Dyadic {
    /// The value in ticks.
    pub open spec fn ticks(self) -> int {
        if self.negative {
            -(self.mantissa as int * pow2((self.exponent + 1200) as nat))
        } else {
            self.mantissa as int * pow2((self.exponent + 1200) as nat)
        }
    }

    /// Whether the number can be an operand of the library's arithmetic: the
    /// mantissa has at most 53 digits and the exponent is in a range that
    /// holds the binary64 numbers and the ball radii.
    pub open spec fn operand(self) -> bool {
        self.mantissa < HIDDEN_BIT * 2 && -1110 <= self.exponent <= 1050
    }
}

/// `2^k * 2 == 2^(k+1)`, and `2^k` is positive.
pub proof fn lemma_pow2_step(k: nat)
    ensures
        pow2(k + 1) == 2 * pow2(k),
        pow2(k) > 0,
{
    lemma_pow2_unfold(k + 1);
    lemma_pow2_pos(k);
}

/// `2^52`, `2^53`, `2^63` and `2^64` as numbers.
pub proof fn lemma_pow2_values()
    ensures
        pow2(0) == 1,
        pow2(1) == 2,
        pow2(2) == 4,
        pow2(3) == 8,
        pow2(52) == 0x10_0000_0000_0000,
        pow2(53) == 0x20_0000_0000_0000,
        pow2(59) == 0x800_0000_0000_0000,
        pow2(60) == 0x1000_0000_0000_0000,
        pow2(63) == 0x8000_0000_0000_0000,
        pow2(64) == 0x1_0000_0000_0000_0000,
{
    vstd::arithmetic::power2::lemma2_to64();
    vstd::arithmetic::power2::lemma2_to64_rest();
}

/// A number between `2^(k-1)` and `2^k` has `k` binary digits.
pub proof fn lemma_bit_length(n: nat, k: nat)
    requires
        k >= 1,
        pow2((k - 1) as nat) <= n < pow2(k),
    ensures
        bit_length(n) == k,
    decreases k,
{
    lemma_pow2_pos((k - 1) as nat);
    if k == 1 {
        lemma_pow2_values();
        assert(n == 1);
        assert(bit_length(1) == 1 + bit_length(0));
    } else {
        lemma_pow2_step((k - 1) as nat);
        lemma_pow2_step((k - 2) as nat);
        lemma_bit_length(n / 2, (k - 1) as nat);
    }
}

/// The power of two with the exponent `k`.
pub fn power_of_two(k: u32) -> (r: u128)
    requires
        k < 128,
    ensures
        r == pow2(k as nat),
        r >= 1,
{
    let mut r: u128 = 1;
    let mut i: u32 = 0;
    proof {
        lemma_pow2_values();
    }
    while i < k
        invariant
            0 <= i <= k < 128,
            r == pow2(i as nat),
            r >= 1,
        decreases k - i,
    {
        proof {
            lemma_pow2_step(i as nat);
            lemma_pow2_bound(i as nat + 1);
        }
        r = r * 2;
        i += 1;
    }
    r
}

/// Powers of two with an exponent under 128 fit in 128 bits.
pub proof fn lemma_pow2_bound(k: nat)
    requires
        k < 128,
    ensures
        pow2(k) <= 0x8000_0000_0000_0000_0000_0000_0000_0000,
{
    lemma_pow2_values();
    lemma_pow2_adds(63, 64);
    assert(pow2(127) == 0x8000_0000_0000_0000_0000_0000_0000_0000) by {
        assert(pow2(63) * pow2(64) == 0x8000_0000_0000_0000 * 0x1_0000_0000_0000_0000);
    }
    if k < 127 {
        lemma_pow2_strictly_increases(k, 127);
    }
}

/// The number of binary digits of `x`.
pub fn digits_of(x: u128) -> (r: u32)
    ensures
        r == bit_length(x as nat),
        r <= 128,
        x > 0 ==> r >= 1 && pow2((r - 1) as nat) <= x < pow2(r as nat),
        x == 0 ==> r == 0,
{
    if x == 0 {
        return 0;
    }
    let mut n: u32 = 0;
    let mut y = x;
    proof {
        lemma_pow2_values();
    }
    while y > 0
        invariant
            0 <= n <= 128,
            bit_length(x as nat) == n + bit_length(y as nat),
            y as nat * pow2(n as nat) <= x,
            y > 0 ==> n < 128,
        decreases y,
    {
        proof {
            lemma_pow2_step(n as nat);
            let p = pow2(n as nat);
            let h = (y / 2) as nat;
            assert(h * (2 * p) <= y as nat * p) by (nonlinear_arith)
                requires
                    2 * h <= y as nat,
                    p > 0,
            ;
            if h > 0 && n + 1 >= 128 {
                lemma_pow2_values();
                lemma_pow2_adds(64, 64);
                assert(pow2(128) == 0x1_0000_0000_0000_0000 * 0x1_0000_0000_0000_0000);
                assert(h * pow2(128) >= pow2(128)) by (nonlinear_arith)
                    requires
                        h >= 1,
                ;
            }
        }
        y = y / 2;
        n += 1;
    }
    proof {
        assert(bit_length(0) == 0);
        lemma_digits_bounds(x as nat, n as nat);
    }
    n
}

/// A positive number lies between the powers of two that its number of
/// digits gives.
pub proof fn lemma_digits_bounds(x: nat, n: nat)
    requires
        x > 0,
        bit_length(x) == n,
    ensures
        n >= 1,
        pow2((n - 1) as nat) <= x < pow2(n),
    decreases x,
{
    lemma_pow2_values();
    if x == 1 {
        assert(bit_length(1) == 1 + bit_length(0));
    } else {
        lemma_digits_bounds(x / 2, (n - 1) as nat);
        lemma_pow2_step((n - 1) as nat);
        lemma_pow2_step((n - 2) as nat);
    }
}

/// Division of a scaled number: with `r0 < t`, dividing `x * t + r0` by
/// `t * p` gives the quotient of `x` by `p`, and the remainder of `x` by `p`
/// scaled, plus `r0`.
pub proof fn lemma_scaled_division(x: nat, r0: nat, t: nat, p: nat)
    requires
        r0 < t,
        p > 0,
    ensures
        (x * t + r0) / (t * p) == x / p,
        (x * t + r0) % (t * p) == (x % p) * t + r0,
{
    let q = x / p;
    let rem = x % p;
    assert(x == q * p + rem && 0 <= rem < p) by {
        vstd::arithmetic::div_mod::lemma_fundamental_div_mod(x as int, p as int);
        vstd::arithmetic::div_mod::lemma_mod_bound(x as int, p as int);
    }
    assert(x * t + r0 == q * (t * p) + (rem * t + r0)) by (nonlinear_arith)
        requires
            x == q * p + rem,
    ;
    assert(rem * t + r0 < t * p) by (nonlinear_arith)
        requires
            rem + 1 <= p,
            r0 < t,
    ;
    assert(t * p > 0) by (nonlinear_arith)
        requires
            t > 0,
            p > 0,
    ;
    lemma_fundamental_div_mod_converse((x * t + r0) as int, (t * p) as int, q as int, (rem * t + r0) as int);
}

/// Rounds a magnitude that is known through its leading digits: `m` ticks lie
/// between `x` and `x + 1` units of `2^t`, and `sticky` says whether `m` is
/// above `x` units.
pub fn round_scaled(x: u128, sticky: bool, t: i64, mode: Rounding, Ghost(m): Ghost<nat>) -> (r: u64)
    requires
        x > 0,
        -1200 <= t <= 1100,
        x as nat * pow2((t + 1200) as nat) <= m < (x as nat + 1) * pow2((t + 1200) as nat),
        sticky == (m != x as nat * pow2((t + 1200) as nat)),
        sticky ==> x >= 0x1000_0000_0000_0000,
    ensures
        r == round_magnitude(m, mode),
        r <= INFINITY_BITS,
{
    let ghost ts = (t + 1200) as nat;
    let ghost tt = pow2(ts);
    let digits = digits_of(x);
    let e: i64 = digits as i64 + t;
    let ghost b = (digits + ts) as nat;
    proof {
        lemma_pow2_values();
        lemma_pow2_pos(ts);
        lemma_pow2_adds((digits - 1) as nat, ts);
        lemma_pow2_adds(digits as nat, ts);
        assert(pow2((digits - 1) as nat) * tt <= x as nat * tt) by (nonlinear_arith)
            requires
                pow2((digits - 1) as nat) <= x as nat,
                tt > 0,
        ;
        assert((x as nat + 1) * tt <= pow2(digits as nat) * tt) by (nonlinear_arith)
            requires
                x as nat + 1 <= pow2(digits as nat),
                tt > 0,
        ;
        lemma_bit_length(m, b);
    }
    if e > 1024 {
        proof {
            if b - 1 > 2224 {
                lemma_pow2_strictly_increases(2224, (b - 1) as nat);
            }
        }
        return if mode == Rounding::Down {
            MAX_BITS
        } else {
            INFINITY_BITS
        };
    }
    proof {
        if b < 2224 {
            lemma_pow2_strictly_increases(b, 2224);
        }
    }
    let u: i64 = if e - 53 > -1074 {
        e - 53
    } else {
        -1074
    };
    let ghost us = (u + 1200) as nat;
    let ghost w = pow2(us);
    assert(us == unit_exponent(m));
    proof {
        lemma_pow2_pos(us);
    }
    let d: i64 = u - t;
    let quotient: u128;
    if d <= 0 {
        let k: u32 = (-d) as u32;
        let scale = power_of_two(k);
        proof {
            // No digit is dropped, so the magnitude is x units exactly.
            lemma_pow2_adds(us, k as nat);
            lemma_pow2_adds(digits as nat, k as nat);
            if digits + k < 53 {
                lemma_pow2_strictly_increases((digits + k) as nat, 53);
            }
            assert(x as nat * scale as nat <= pow2(digits as nat) * scale as nat) by (nonlinear_arith)
                requires
                    x as nat <= pow2(digits as nat),
            ;
            if sticky {
                if digits <= 60 {
                    if digits < 60 {
                        lemma_pow2_strictly_increases(digits as nat, 60);
                    }
                }
                assert(digits >= 61);
                assert(false);
            }
            assert(m == (x as nat * scale as nat) * w) by (nonlinear_arith)
                requires
                    m == x as nat * tt,
                    tt == w * scale as nat,
            ;
            lemma_fundamental_div_mod_converse(m as int, w as int, (x as nat * scale as nat) as int, 0);
        }
        quotient = x * scale;
    } else {
        let p = power_of_two(d as u32);
        let q = x / p;
        let rem = x % p;
        proof {
            let r0 = (m - x as nat * tt) as nat;
            assert((x as nat + 1) * tt == x as nat * tt + tt) by (nonlinear_arith);
            lemma_pow2_adds(ts, d as nat);
            lemma_scaled_division(x as nat, r0, tt, p as nat);
            assert(m == x as nat * tt + r0);
            assert(w == tt * p as nat);
            assert(m / w == q);
            assert(m % w == rem as nat * tt + r0);
            // The quotient has at most 53 digits.
            lemma_pow2_adds(d as nat, 53);
            if digits < d + 53 {
                lemma_pow2_strictly_increases(digits as nat, (d + 53) as nat);
            }
            assert(q < pow2(53)) by (nonlinear_arith)
                requires
                    q == x as nat / p as nat,
                    (x as nat) < p as nat * pow2(53),
                    p > 0,
            ;
            lemma_pow2_step((d - 1) as nat);
        }
        let inexact = rem != 0 || sticky;
        proof {
            let r0 = (m - x as nat * tt) as nat;
            assert((m % w == 0) == !inexact) by (nonlinear_arith)
                requires
                    m % w == rem as nat * tt + r0,
                    tt > 0,
                    inexact == (rem != 0 || r0 != 0),
            ;
        }
        let half = p / 2;
        let above = rem > half || (rem == half && sticky);
        let below = rem < half;
        proof {
            let r0 = (m - x as nat * tt) as nat;
            let r = m % w;
            assert(p == 2 * half);
            assert(below ==> 2 * r < w) by (nonlinear_arith)
                requires
                    r == rem as nat * tt + r0,
                    w == tt * p as nat,
                    p == 2 * half,
                    r0 < tt,
                    below == (rem < half),
            ;
            assert(above ==> 2 * r > w) by (nonlinear_arith)
                requires
                    r == rem as nat * tt + r0,
                    w == tt * p as nat,
                    p == 2 * half,
                    tt > 0,
                    above == (rem > half || (rem == half && r0 > 0)),
            ;
            assert(!above && !below ==> 2 * r == w) by (nonlinear_arith)
                requires
                    r == rem as nat * tt + r0,
                    w == tt * p as nat,
                    p == 2 * half,
                    !above && !below ==> rem == half && r0 == 0,
            ;
        }
        quotient = match mode {
            Rounding::Down => q,
            Rounding::Up => if inexact {
                q + 1
            } else {
                q
            },
            Rounding::Nearest => if below {
                q
            } else if above {
                q + 1
            } else if q % 2 == 0 {
                q
            } else {
                q + 1
            },
        };
    }
    assert(quotient == round_quotient(m, w, mode));
    assert(quotient <= 0x20_0000_0000_0000);
    ((u + 1074) as u64) * HIDDEN_BIT + (quotient as u64)
}

impl Dyadic {
    /// The absolute value in ticks.
    pub open spec fn magnitude(self) -> nat {
        self.mantissa as nat * pow2((self.exponent + 1200) as nat)
    }
}

/// Zero is rounded to +0 in every mode.
pub proof fn lemma_round_zero(mode: Rounding)
    ensures
        round(0, mode) == 0,
{
    lemma_pow2_pos(126);
    lemma_pow2_pos(2224);
    assert(bit_length(0) == 0);
    let w = pow2(126);
    assert(0nat / w == 0 && 0nat % w == 0) by {
        lemma_fundamental_div_mod_converse(0, w as int, 0, 0);
    }
}

/// Shifts the mantissa of a nonzero operand to 60 digits.
pub fn normalize(d: Dyadic) -> (r: (u64, i64))
    requires
        d.operand(),
        d.mantissa > 0,
    ensures
        0x800_0000_0000_0000 <= r.0 < 0x1000_0000_0000_0000,
        d.exponent - 59 <= r.1 <= d.exponent,
        r.0 as nat * pow2((r.1 + 1200) as nat) == d.magnitude(),
{
    let mut m = d.mantissa;
    let mut e = d.exponent;
    proof {
        lemma_pow2_values();
        assert(d.mantissa as nat * pow2(0) == d.mantissa as nat) by (nonlinear_arith)
            requires
                pow2(0) == 1,
        ;
    }
    while m < 0x800_0000_0000_0000
        invariant
            0 < m < 0x1000_0000_0000_0000,
            e <= d.exponent,
            d.mantissa > 0,
            -1110 <= d.exponent <= 1050,
            d.exponent - e <= 59,
            m as nat == d.mantissa as nat * pow2((d.exponent - e) as nat),
            m as nat * pow2((e + 1200) as nat) == d.magnitude(),
        decreases 0x1000_0000_0000_0000 - m,
    {
        proof {
            let k = (d.exponent - e) as nat;
            lemma_pow2_values();
            lemma_pow2_step((e + 1199) as nat);
            lemma_pow2_step(k);
            if k >= 59 {
                if k > 59 {
                    lemma_pow2_strictly_increases(59, k);
                }
                assert(d.mantissa as nat * pow2(k) >= pow2(59)) by (nonlinear_arith)
                    requires
                        d.mantissa as nat >= 1,
                        pow2(k) >= pow2(59),
                ;
            }
            assert((2 * m as nat) * pow2((e + 1199) as nat) == m as nat * pow2((e + 1200) as nat))
                by (nonlinear_arith)
                requires
                    pow2((e + 1200) as nat) == 2 * pow2((e + 1199) as nat),
            ;
            assert(2 * m as nat == d.mantissa as nat * pow2(k + 1)) by (nonlinear_arith)
                requires
                    m as nat == d.mantissa as nat * pow2(k),
                    pow2(k + 1) == 2 * pow2(k),
            ;
        }
        m = m * 2;
        e = e - 1;
    }
    (m, e)
}

/// The bit pattern with the given sign and magnitude.
pub fn with_sign(negative: bool, magnitude_bits: u64) -> (r: u64)
    requires
        magnitude_bits <= INFINITY_BITS,
    ensures
        r == (if negative { SIGN_BIT as nat + magnitude_bits as nat } else { magnitude_bits as nat }),
        abs_bits(r) == magnitude_bits,
        is_negative(r) == negative,
{
    if negative {
        SIGN_BIT + magnitude_bits
    } else {
        magnitude_bits
    }
}

/// Rounds a nonzero operand to a binary64 number.
pub fn round_dyadic(d: Dyadic, mode: Rounding) -> (r: u64)
    requires
        d.operand(),
        d.mantissa > 0,
    ensures
        r == round(d.ticks(), mode),
        abs_bits(r) <= INFINITY_BITS,
{
    let (m, e) = normalize(d);
    proof {
        lemma_pow2_pos((e + 1200) as nat);
        lemma_pow2_pos((d.exponent + 1200) as nat);
        assert(d.magnitude() > 0) by (nonlinear_arith)
            requires
                d.magnitude() == d.mantissa as nat * pow2((d.exponent + 1200) as nat),
                d.mantissa > 0,
                pow2((d.exponent + 1200) as nat) > 0,
        ;
        assert((m as nat + 1) * pow2((e + 1200) as nat) > m as nat * pow2((e + 1200) as nat))
            by (nonlinear_arith)
            requires
                pow2((e + 1200) as nat) > 0,
        ;
    }
    let mag = round_scaled(m as u128, false, e, magnitude_mode_of(d.negative, mode), Ghost(d.magnitude()));
    with_sign(d.negative, mag)
}

/// The rounding of magnitudes that rounds a value of the given sign as
/// `mode` says.
pub fn magnitude_mode_of(negative: bool, mode: Rounding) -> (r: Rounding)
    ensures
        r == magnitude_mode(negative, mode),
{
    match mode {
        Rounding::Down => if negative {
            Rounding::Up
        } else {
            Rounding::Down
        },
        Rounding::Up => if negative {
            Rounding::Down
        } else {
            Rounding::Up
        },
        Rounding::Nearest => Rounding::Nearest,
    }
}

/// The sum or difference, in ticks, of two magnitudes given by mantissa and
/// exponent.
pub open spec fn combined(m1: u64, e1: i64, m2: u64, e2: i64, subtract: bool) -> int {
    if subtract {
        m1 as nat * pow2((e1 + 1200) as nat) - m2 as nat * pow2((e2 + 1200) as nat)
    } else {
        (m1 as nat * pow2((e1 + 1200) as nat) + m2 as nat * pow2((e2 + 1200) as nat)) as int
    }
}

/// The sum or difference of two magnitudes with 60 digits each, the first not
/// below the second, as leading digits `x` in units of `2^t` and a flag that
/// says whether anything is left over.
pub fn align(m1: u64, e1: i64, m2: u64, e2: i64, subtract: bool) -> (r: (u128, i64, bool))
    requires
        0x800_0000_0000_0000 <= m1 < 0x1000_0000_0000_0000,
        0x800_0000_0000_0000 <= m2 < 0x1000_0000_0000_0000,
        -1170 <= e2 <= e1 <= 1050,
        e1 > e2 || m1 >= m2,
    ensures
        -1200 <= r.1 <= 1100,
        r.0 as nat * pow2((r.1 + 1200) as nat) <= combined(m1, e1, m2, e2, subtract) < (r.0 as nat + 1)
            * pow2((r.1 + 1200) as nat),
        r.2 == (combined(m1, e1, m2, e2, subtract) != r.0 as nat * pow2((r.1 + 1200) as nat)),
        r.2 ==> r.0 >= 0x1000_0000_0000_0000,
{
    let ghost big = m1 as nat * pow2((e1 + 1200) as nat);
    let ghost small = m2 as nat * pow2((e2 + 1200) as nat);
    let ghost unit2 = pow2((e2 + 1200) as nat);
    let gap = e1 - e2;
    proof {
        lemma_pow2_values();
        lemma_pow2_pos((e2 + 1200) as nat);
        lemma_pow2_pos((e1 + 1200) as nat);
    }
    if gap <= 66 {
        let scale = power_of_two(gap as u32);
        proof {
            lemma_pow2_adds(gap as nat, (e2 + 1200) as nat);
            lemma_pow2_adds(60, 66);
            if gap < 66 {
                lemma_pow2_strictly_increases(gap as nat, 66);
            }
            lemma_pow2_bound(126);
            assert(m1 as nat * scale as nat <= pow2(60) * pow2(66)) by (nonlinear_arith)
                requires
                    m1 as nat <= pow2(60),
                    scale as nat <= pow2(66),
            ;
            assert(big == (m1 as nat * scale as nat) * unit2) by (nonlinear_arith)
                requires
                    big == m1 as nat * pow2((e1 + 1200) as nat),
                    pow2((e1 + 1200) as nat) == scale as nat * unit2,
            ;
            if gap > 0 {
                lemma_pow2_step((gap - 1) as nat);
                lemma_pow2_pos((gap - 1) as nat);
                assert(m1 as nat * scale as nat >= m2 as nat) by (nonlinear_arith)
                    requires
                        m1 as nat >= 0x800_0000_0000_0000,
                        scale as nat >= 2,
                        (m2 as nat) < 0x1000_0000_0000_0000,
                ;
            } else {
                assert(m1 as nat * scale as nat == m1 as nat) by (nonlinear_arith)
                    requires
                        scale == 1,
                ;
            }
        }
        let lead: u128 = m1 as u128 * scale;
        let x: u128 = if subtract {
            lead - m2 as u128
        } else {
            lead + m2 as u128
        };
        proof {
            assert(x as nat * unit2 == combined(m1, e1, m2, e2, subtract)) by (nonlinear_arith)
                requires
                    big == lead as nat * unit2,
                    small == m2 as nat * unit2,
                    combined(m1, e1, m2, e2, subtract) == (if subtract {
                        big - small
                    } else {
                        (big + small) as int
                    }),
                    x as int == (if subtract {
                        lead as int - m2 as int
                    } else {
                        lead as int + m2 as int
                    }),
            ;
            assert((x as nat + 1) * unit2 > x as nat * unit2) by (nonlinear_arith)
                requires
                    unit2 > 0,
            ;
        }
        (x, e2, false)
    } else {
        let ghost unit = pow2((e1 + 1197) as nat);
        proof {
            lemma_pow2_pos((e1 + 1197) as nat);
            lemma_pow2_adds(3, (e1 + 1197) as nat);
            lemma_pow2_adds(60, (e2 + 1200) as nat);
            if e2 + 1260 < e1 + 1197 {
                lemma_pow2_strictly_increases((e2 + 1260) as nat, (e1 + 1197) as nat);
            }
            assert(small < pow2(60) * unit2) by (nonlinear_arith)
                requires
                    small == m2 as nat * unit2,
                    (m2 as nat) < pow2(60),
                    unit2 > 0,
            ;
            assert(small < unit);
            assert(small > 0) by (nonlinear_arith)
                requires
                    small == m2 as nat * unit2,
                    m2 > 0,
                    unit2 > 0,
            ;
            assert(big == (m1 as nat * 8) * unit) by (nonlinear_arith)
                requires
                    big == m1 as nat * pow2((e1 + 1200) as nat),
                    pow2((e1 + 1200) as nat) == 8 * unit,
            ;
        }
        let x: u128 = if subtract {
            m1 as u128 * 8 - 1
        } else {
            m1 as u128 * 8
        };
        proof {
            let m = combined(m1, e1, m2, e2, subtract);
            assert(x as nat * unit < m < (x as nat + 1) * unit) by (nonlinear_arith)
                requires
                    big == (m1 as nat * 8) * unit,
                    0 < small < unit,
                    m == (if subtract {
                        big - small
                    } else {
                        (big + small) as int
                    }),
                    x as int == (if subtract {
                        m1 as int * 8 - 1
                    } else {
                        m1 as int * 8
                    }),
                    m1 >= 1,
            ;
        }
        (x, e1 - 3, true)
    }
}

/// The exact sum of two operands, rounded to a binary64 number.
pub fn round_sum(a: Dyadic, b: Dyadic, mode: Rounding) -> (r: u64)
    requires
        a.operand(),
        b.operand(),
    ensures
        r == round(a.ticks() + b.ticks(), mode),
        abs_bits(r) <= INFINITY_BITS,
{
    if b.mantissa == 0 {
        assert(b.ticks() == 0) by (nonlinear_arith)
            requires
                b.mantissa == 0,
                b.ticks() == b.mantissa as int * pow2((b.exponent + 1200) as nat) || b.ticks() == -(
                b.mantissa as int * pow2((b.exponent + 1200) as nat)),
        ;
        if a.mantissa == 0 {
            assert(a.ticks() == 0) by (nonlinear_arith)
                requires
                    a.mantissa == 0,
                    a.ticks() == a.mantissa as int * pow2((a.exponent + 1200) as nat) || a.ticks() == -(
                    a.mantissa as int * pow2((a.exponent + 1200) as nat)),
            ;
            proof {
                lemma_round_zero(mode);
            }
            return 0;
        }
        return round_dyadic(a, mode);
    }
    if a.mantissa == 0 {
        assert(a.ticks() == 0) by (nonlinear_arith)
            requires
                a.mantissa == 0,
                a.ticks() == a.mantissa as int * pow2((a.exponent + 1200) as nat) || a.ticks() == -(
                a.mantissa as int * pow2((a.exponent + 1200) as nat)),
        ;
        return round_dyadic(b, mode);
    }
    let (ma, ea) = normalize(a);
    let (mb, eb) = normalize(b);
    let a_leads = ea > eb || (ea == eb && ma >= mb);
    let (m1, e1, n1) = if a_leads {
        (ma, ea, a.negative)
    } else {
        (mb, eb, b.negative)
    };
    let (m2, e2, n2) = if a_leads {
        (mb, eb, b.negative)
    } else {
        (ma, ea, a.negative)
    };
    let subtract = n1 != n2;
    let (x, t, sticky) = align(m1, e1, m2, e2, subtract);
    let ghost m = combined(m1, e1, m2, e2, subtract);
    proof {
        assert(a.ticks() + b.ticks() == (if n1 {
            -m
        } else {
            m
        }));
    }
    if x == 0 {
        proof {
            assert(m == 0) by (nonlinear_arith)
                requires
                    m == x as nat * pow2((t + 1200) as nat),
                    x == 0,
            ;
            lemma_round_zero(mode);
        }
        return 0;
    }
    proof {
        lemma_pow2_pos((t + 1200) as nat);
        assert(m > 0) by (nonlinear_arith)
            requires
                m >= x as nat * pow2((t + 1200) as nat),
                x > 0,
                pow2((t + 1200) as nat) > 0,
        ;
    }
    let mag = round_scaled(x, sticky, t, magnitude_mode_of(n1, mode), Ghost(m as nat));
    with_sign(n1, mag)
}

/// The finite number with the bit pattern `b` as mantissa and exponent.
pub open spec fn decode_spec(b: u64) -> Dyadic {
    if exponent_field(b) == 0 {
        Dyadic { negative: is_negative(b), mantissa: fraction(b) as u64, exponent: -1074i64 }
    } else {
        Dyadic {
            negative: is_negative(b),
            mantissa: (HIDDEN_BIT + fraction(b)) as u64,
            exponent: (exponent_field(b) - 1075) as i64,
        }
    }
}

/// A finite bit pattern and its decoding have the same value.
pub proof fn lemma_decode(b: u64)
    requires
        is_finite(b),
    ensures
        decode_spec(b).ticks() == ticks(b),
        decode_spec(b).magnitude() == magnitude(b),
        decode_spec(b).operand(),
        decode_spec(b).exponent >= -1074,
        decode_spec(b).exponent <= 971,
        (decode_spec(b).mantissa == 0) == (abs_bits(b) == 0),
{
}

/// The bit pattern without its sign.
pub fn magnitude_bits(b: u64) -> (r: u64)
    ensures
        r == abs_bits(b),
{
    if b >= SIGN_BIT {
        b - SIGN_BIT
    } else {
        b
    }
}

/// The finite number with the bit pattern `b` as mantissa and exponent.
pub fn decode(b: u64) -> (r: Dyadic)
    requires
        is_finite(b),
    ensures
        r == decode_spec(b),
{
    let a = magnitude_bits(b);
    let e = a / HIDDEN_BIT;
    let f = a % HIDDEN_BIT;
    if e == 0 {
        Dyadic { negative: b >= SIGN_BIT, mantissa: f, exponent: -1074 }
    } else {
        Dyadic { negative: b >= SIGN_BIT, mantissa: HIDDEN_BIT + f, exponent: e as i64 - 1075 }
    }
}

/// Among bit patterns without sign, up to infinity, the larger pattern is
/// the larger number.
pub proof fn lemma_magnitude_increases(x: u64, y: u64)
    requires
        x < y <= INFINITY_BITS,
    ensures
        magnitude(x) < magnitude(y),
{
    let e1 = exponent_field(x);
    let f1 = fraction(x);
    let e2 = exponent_field(y);
    let f2 = fraction(y);
    lemma_pow2_values();
    assert(abs_bits(x) == x && abs_bits(y) == y);
    assert(x == e1 * HIDDEN_BIT + f1 && y == e2 * HIDDEN_BIT + f2);
    assert(e1 <= e2);
    if e1 == e2 {
        if e1 == 0 {
            lemma_pow2_pos(126);
            assert(f1 * pow2(126) < f2 * pow2(126)) by (nonlinear_arith)
                requires
                    f1 < f2,
                    pow2(126) > 0,
            ;
        } else {
            lemma_pow2_pos(125 + e1);
            assert((HIDDEN_BIT as nat + f1) * pow2(125 + e1) < (HIDDEN_BIT as nat + f2) * pow2(125 + e1))
                by (nonlinear_arith)
                requires
                    f1 < f2,
                    pow2(125 + e1) > 0,
            ;
        }
    } else {
        // The smaller number lies under the least number with the larger
        // exponent field.
        lemma_pow2_pos(125 + e2);
        assert(HIDDEN_BIT as nat * pow2(125 + e2) <= (HIDDEN_BIT as nat + f2) * pow2(125 + e2))
            by (nonlinear_arith);
        if e1 == 0 {
            lemma_pow2_pos(126);
            if 126 < 125 + e2 {
                lemma_pow2_strictly_increases(126, 125 + e2);
            }
            assert(f1 * pow2(126) < HIDDEN_BIT as nat * pow2(125 + e2)) by (nonlinear_arith)
                requires
                    f1 < HIDDEN_BIT as nat,
                    0 < pow2(126) <= pow2(125 + e2),
            ;
        } else {
            let k = 125 + e1;
            lemma_pow2_pos(k);
            lemma_pow2_step(k);
            if k + 1 < 125 + e2 {
                lemma_pow2_strictly_increases(k + 1, 125 + e2);
            }
            assert((HIDDEN_BIT as nat + f1) * pow2(k) < HIDDEN_BIT as nat * pow2(125 + e2))
                by (nonlinear_arith)
                requires
                    f1 < HIDDEN_BIT as nat,
                    pow2(k) > 0,
                    2 * pow2(k) <= pow2(125 + e2),
            ;
        }
    }
}

/// Whether the number with the pattern `a` is at most that with the pattern
/// `b`, for numbers that are not NaN.
pub fn at_most(a: u64, b: u64) -> (r: bool)
    requires
        !is_nan(a),
        !is_nan(b),
    ensures
        r == (ticks(a) <= ticks(b)),
{
    let x = magnitude_bits(a);
    let y = magnitude_bits(b);
    proof {
        if x < y {
            lemma_magnitude_increases(x, y);
        }
        if y < x {
            lemma_magnitude_increases(y, x);
        }
        if 0 < x {
            lemma_magnitude_increases(0, x);
        }
        if 0 < y {
            lemma_magnitude_increases(0, y);
        }
        lemma_pow2_pos(126);
        assert(magnitude(0) == 0) by (nonlinear_arith)
            requires
                magnitude(0) == 0 * pow2(126),
        ;
        assert(magnitude(a) == magnitude(x) && magnitude(b) == magnitude(y));
    }
    if a >= SIGN_BIT {
        if b >= SIGN_BIT {
            y <= x
        } else {
            true
        }
    } else {
        if b >= SIGN_BIT {
            x == 0 && y == 0
        } else {
            x <= y
        }
    }
}

/// The bit pattern of `q` units of `2^u` ticks denotes that magnitude.
pub proof fn lemma_encode_magnitude(q: nat, u: nat)
    requires
        126 <= u <= 2171,
        q <= 2 * HIDDEN_BIT,
        q >= HIDDEN_BIT || u == 126,
    ensures
        encode(q, u) <= INFINITY_BITS,
        magnitude(encode(q, u) as u64) == q * pow2(u),
        q < 2 * HIDDEN_BIT ==> encode(q, u) <= MAX_BITS,
{
    let bits = encode(q, u);
    let h = HIDDEN_BIT as nat;
    assert(bits <= INFINITY_BITS && (q < 2 * h ==> bits <= MAX_BITS)) by (nonlinear_arith)
        requires
            bits == (u - 126) * h + q,
            h == 0x10_0000_0000_0000,
            126 <= u <= 2171,
            q <= 2 * h,
    ;
    let b = bits as u64;
    assert(abs_bits(b) == b);
    if q < h {
        assert(bits == q) by (nonlinear_arith)
            requires
                bits == (u - 126) * h + q,
                u == 126,
        ;
    } else if q < 2 * h {
        let e = (u - 125) as nat;
        assert(bits == e * h + (q - h)) by (nonlinear_arith)
            requires
                bits == (u - 126) * h + q,
                e == u - 125,
        ;
        lemma_fundamental_div_mod_converse(bits as int, h as int, e as int, (q - h) as int);
        assert(exponent_field(b) == e && fraction(b) == q - h);
        assert(125 + e == u);
    } else {
        let e = (u - 124) as nat;
        assert(bits == e * h + 0) by (nonlinear_arith)
            requires
                bits == (u - 126) * h + q,
                q == 2 * h,
                e == u - 124,
        ;
        lemma_fundamental_div_mod_converse(bits as int, h as int, e as int, 0);
        assert(exponent_field(b) == e && fraction(b) == 0);
        lemma_pow2_step(u);
        assert((h + 0) * pow2(u + 1) == q * pow2(u)) by (nonlinear_arith)
            requires
                q == 2 * h,
                pow2(u + 1) == 2 * pow2(u),
        ;
        assert(125 + e == u + 1);
    }
}

/// The magnitude that the pattern of infinity stands for: `2^1024`.
pub proof fn lemma_infinity_magnitude()
    ensures
        magnitude(INFINITY_BITS) == pow2(2224),
        magnitude(0) == 0,
{
    lemma_pow2_values();
    lemma_pow2_adds(52, 2172);
    assert(abs_bits(INFINITY_BITS) == INFINITY_BITS);
    assert(exponent_field(INFINITY_BITS) == 2047 && fraction(INFINITY_BITS) == 0);
    assert(magnitude(0) == 0) by (nonlinear_arith)
        requires
            magnitude(0) == 0 * pow2(126),
    ;
}

/// The whole units of a magnitude under `2^1024` in its own unit: at most 53
/// digits, and 53 digits wherever the unit is not the finest.
pub proof fn lemma_unit_quotient(m: nat)
    requires
        m < pow2(2224),
    ensures
        126 <= unit_exponent(m) <= 2171,
        m / pow2(unit_exponent(m)) < 2 * HIDDEN_BIT,
        m / pow2(unit_exponent(m)) >= HIDDEN_BIT || unit_exponent(m) == 126,
        (m / pow2(unit_exponent(m))) * pow2(unit_exponent(m)) + m % pow2(unit_exponent(m)) == m,
        m % pow2(unit_exponent(m)) < pow2(unit_exponent(m)),
{
    let b = bit_length(m);
    let u = unit_exponent(m);
    let w = pow2(u);
    lemma_pow2_values();
    lemma_pow2_pos(u);
    vstd::arithmetic::div_mod::lemma_fundamental_div_mod(m as int, w as int);
    vstd::arithmetic::div_mod::lemma_mod_bound(m as int, w as int);
    assert((m / w) * w == w * (m / w)) by (nonlinear_arith);
    if m == 0 {
        assert(bit_length(0) == 0);
    } else {
        lemma_digits_bounds(m, b);
        if b > 2224 {
            if b - 1 > 2224 {
                lemma_pow2_strictly_increases(2224, (b - 1) as nat);
            }
            assert(false);
        }
        if b >= 179 {
            lemma_pow2_adds(52, u);
            lemma_pow2_adds(53, u);
            assert(m / w >= HIDDEN_BIT as nat) by (nonlinear_arith)
                requires
                    m >= HIDDEN_BIT as nat * w,
                    (m / w) * w + m % w == m,
                    m % w < w,
                    w > 0,
            ;
            assert(m / w < 2 * HIDDEN_BIT as nat) by (nonlinear_arith)
                requires
                    m < 2 * HIDDEN_BIT as nat * w,
                    (m / w) * w + m % w == m,
                    m % w >= 0,
                    w > 0,
            ;
        } else {
            if b < 178 {
                lemma_pow2_strictly_increases(b, 178);
            }
            lemma_pow2_adds(52, 126);
            assert(m / w < HIDDEN_BIT as nat) by (nonlinear_arith)
                requires
                    m < HIDDEN_BIT as nat * w,
                    (m / w) * w + m % w == m,
                    m % w >= 0,
                    w > 0,
            ;
        }
    }
}

/// The whole units after rounding are the quotient or one more; away from
/// zero they are not below the magnitude.
pub proof fn lemma_round_quotient(m: nat, w: nat, mode: Rounding)
    requires
        w > 0,
    ensures
        m / w <= round_quotient(m, w, mode) <= m / w + 1,
        mode == Rounding::Down ==> round_quotient(m, w, mode) * w <= m,
        mode == Rounding::Up ==> round_quotient(m, w, mode) * w >= m,
{
    let q0 = m / w;
    let r = m % w;
    vstd::arithmetic::div_mod::lemma_fundamental_div_mod(m as int, w as int);
    vstd::arithmetic::div_mod::lemma_mod_bound(m as int, w as int);
    assert(q0 * w == w * q0) by (nonlinear_arith);
    assert((q0 + 1) * w == q0 * w + w) by (nonlinear_arith);
}

/// What rounding a magnitude gives: never a NaN; towards zero a finite
/// number that is not above the magnitude; away from zero infinity or a
/// number that is not below it.
pub proof fn lemma_round_magnitude(m: nat, mode: Rounding)
    ensures
        round_magnitude(m, mode) <= INFINITY_BITS,
        mode == Rounding::Down ==> round_magnitude(m, mode) <= MAX_BITS && magnitude(
            round_magnitude(m, mode) as u64,
        ) <= m,
        mode == Rounding::Up ==> round_magnitude(m, mode) == INFINITY_BITS || magnitude(
            round_magnitude(m, mode) as u64,
        ) >= m,
{
    lemma_infinity_magnitude();
    if m >= pow2(2224) {
        lemma_magnitude_increases(MAX_BITS, INFINITY_BITS);
    } else {
        lemma_unit_quotient(m);
        let u = unit_exponent(m);
        let w = pow2(u);
        let q = round_quotient(m, w, mode);
        lemma_pow2_pos(u);
        lemma_round_quotient(m, w, mode);
        lemma_encode_magnitude(q, u);
    }
}

/// A finite number is rounded to itself, in every mode.
pub proof fn lemma_round_exact(b: u64, mode: Rounding)
    requires
        b < INFINITY_BITS,
    ensures
        round_magnitude(magnitude(b), mode) == b,
{
    let e = exponent_field(b);
    let f = fraction(b);
    let h = HIDDEN_BIT as nat;
    let m = magnitude(b);
    lemma_pow2_values();
    lemma_infinity_magnitude();
    lemma_magnitude_increases(b, INFINITY_BITS);
    assert(abs_bits(b) == b);
    assert(b == e * h + f);
    let u: nat = if e == 0 {
        126
    } else {
        125 + e
    };
    let q: nat = if e == 0 {
        f
    } else {
        h + f
    };
    let w = pow2(u);
    lemma_pow2_pos(u);
    assert(m == q * w + 0);
    // The unit of the magnitude is that of the number.
    if m > 0 {
        if e == 0 {
            lemma_pow2_adds(52, 126);
            assert(m < pow2(178)) by (nonlinear_arith)
                requires
                    m == f * w,
                    f < h,
                    pow2(178) == h * w,
                    w > 0,
            ;
            let bl = bit_length(m);
            lemma_digits_bounds(m, bl);
            if bl >= 179 {
                if bl - 1 > 178 {
                    lemma_pow2_strictly_increases(178, (bl - 1) as nat);
                }
                assert(false);
            }
        } else {
            lemma_pow2_adds(52, u);
            lemma_pow2_adds(53, u);
            assert(pow2(52 + u) <= m < pow2(53 + u)) by (nonlinear_arith)
                requires
                    m == (h + f) * w,
                    f < h,
                    pow2(52 + u) == h * w,
                    pow2(53 + u) == 2 * h * w,
                    w > 0,
            ;
            lemma_bit_length(m, 53 + u);
        }
    } else {
        assert(bit_length(0) == 0);
        assert(e == 0) by (nonlinear_arith)
            requires
                m == q * w,
                m == 0,
                w > 0,
                q == (if e == 0 {
                    f
                } else {
                    h + f
                }),
                h > 0,
        ;
    }
    assert(unit_exponent(m) == u);
    lemma_fundamental_div_mod_converse(m as int, w as int, q as int, 0);
    assert(round_quotient(m, w, mode) == q);
    assert(encode(q, u) == b) by (nonlinear_arith)
        requires
            encode(q, u) == ((u - 126) * h + q) as nat,
            b == e * h + f,
            u == (if e == 0 {
                126
            } else {
                125 + e
            }),
            q == (if e == 0 {
                f
            } else {
                h + f
            }),
    ;
}

/// Whether the pattern is that of -infinity.
pub open spec fn is_negative_infinity(b: u64) -> bool {
    b == SIGN_BIT + INFINITY_BITS
}

/// A value rounded down is -infinity or a finite number that is not above
/// it, and never above the largest finite number.
pub proof fn lemma_round_down(v: int)
    ensures
        round(v, Rounding::Down) <= u64::MAX,
        is_negative_infinity(round(v, Rounding::Down) as u64) || (is_finite(round(v, Rounding::Down) as u64)
            && ticks(round(v, Rounding::Down) as u64) <= v),
{
    if v >= 0 {
        lemma_round_magnitude(v as nat, Rounding::Down);
    } else {
        lemma_round_magnitude((-v) as nat, Rounding::Up);
        let mag = round_magnitude((-v) as nat, Rounding::Up) as u64;
        let r = (SIGN_BIT + mag) as u64;
        assert(abs_bits(r) == mag);
        assert(magnitude(r) == magnitude(mag));
    }
}

/// A value rounded up is +infinity or a finite number that is not below it,
/// and never below the least finite number.
pub proof fn lemma_round_up(v: int)
    ensures
        round(v, Rounding::Up) <= u64::MAX,
        round(v, Rounding::Up) == INFINITY_BITS || (is_finite(round(v, Rounding::Up) as u64) && ticks(
            round(v, Rounding::Up) as u64,
        ) >= v),
{
    if v >= 0 {
        lemma_round_magnitude(v as nat, Rounding::Up);
    } else {
        lemma_round_magnitude((-v) as nat, Rounding::Down);
        let mag = round_magnitude((-v) as nat, Rounding::Down) as u64;
        let r = (SIGN_BIT + mag) as u64;
        assert(abs_bits(r) == mag);
        assert(magnitude(r) == magnitude(mag));
    }
}

/// The value of a finite number is rounded to that number, in every mode;
/// the value of a zero to +0.
pub proof fn lemma_round_finite(b: u64, mode: Rounding)
    requires
        is_finite(b),
    ensures
        round(ticks(b), mode) == (if abs_bits(b) == 0 { 0 } else { b }),
{
    let a = abs_bits(b);
    lemma_infinity_magnitude();
    assert(magnitude(b) == magnitude(a));
    lemma_round_exact(a, magnitude_mode(is_negative(b), mode));
    lemma_round_exact(a, magnitude_mode(false, mode));
    if a > 0 {
        lemma_magnitude_increases(0, a);
    }
}

/// One unit more than the whole units of a magnitude is above it.
pub proof fn lemma_next_unit(q: nat, w: nat, rem: nat, m: nat)
    requires
        q * w + rem == m,
        rem < w,
    ensures
        (q + 1) * w > m,
{
    assert((q + 1) * w == q * w + w) by (nonlinear_arith);
}

/// Rounding a magnitude towards zero gives the greatest finite number that
/// is not above it.
pub proof fn lemma_round_magnitude_down_greatest(m: nat, x: u64)
    requires
        x < INFINITY_BITS,
        magnitude(x) <= m,
    ensures
        x <= round_magnitude(m, Rounding::Down),
{
    let r = round_magnitude(m, Rounding::Down);
    lemma_round_magnitude(m, Rounding::Down);
    if m < pow2(2224) && x > r {
        lemma_unit_quotient(m);
        let u = unit_exponent(m);
        let w = pow2(u);
        let q0 = m / w;
        // The next pattern is one unit more, which is above the magnitude.
        let next = encode(q0 + 1, u);
        assert(next == r + 1);
        lemma_encode_magnitude(q0 + 1, u);
        lemma_next_unit(q0, w, m % w, m);
        if x > next {
            lemma_magnitude_increases(next as u64, x);
        }
        assert(false);
    }
}

/// Rounding a magnitude away from zero gives the least number, infinity
/// included, that is not below it.
pub proof fn lemma_round_magnitude_up_least(m: nat, x: u64)
    requires
        x <= INFINITY_BITS,
        magnitude(x) >= m,
    ensures
        x >= round_magnitude(m, Rounding::Up),
{
    let r = round_magnitude(m, Rounding::Up);
    let h = HIDDEN_BIT as nat;
    lemma_infinity_magnitude();
    lemma_round_magnitude(m, Rounding::Up);
    if m >= pow2(2224) {
        if x < INFINITY_BITS {
            lemma_magnitude_increases(x, INFINITY_BITS);
        }
    } else if x < r {
        lemma_unit_quotient(m);
        let u = unit_exponent(m);
        let w = pow2(u);
        let q0 = m / w;
        lemma_pow2_pos(u);
        // The pattern before the result has a magnitude under `m`.
        let before = (r - 1) as nat;
        if m % w != 0 {
            assert(before == encode(q0, u));
            lemma_encode_magnitude(q0, u);
            assert(q0 * w < m);
        } else if q0 > h || u == 126 {
            assert(q0 >= 1);
            assert(before == encode((q0 - 1) as nat, u));
            lemma_encode_magnitude((q0 - 1) as nat, u);
            assert((q0 - 1) * w < m) by (nonlinear_arith)
                requires
                    q0 * w + m % w == m,
                    m % w == 0,
                    w > 0,
            ;
        } else {
            assert(q0 == h);
            let below = (u - 1) as nat;
            assert(before == encode((2 * h - 1) as nat, below));
            lemma_encode_magnitude((2 * h - 1) as nat, below);
            lemma_pow2_step(below);
            assert((2 * h - 1) * pow2(below) < m) by (nonlinear_arith)
                requires
                    q0 * w + m % w == m,
                    m % w == 0,
                    q0 == h,
                    w == 2 * pow2(below),
                    pow2(below) > 0,
            ;
        }
        if x < before {
            lemma_magnitude_increases(x, before as u64);
        }
        assert(false);
    }
}

/// Rounding down gives the greatest binary64 number that is not above the
/// value: no finite number lies above the result and not above the value.
pub proof fn lemma_round_down_is_greatest(v: int, d: u64)
    requires
        is_finite(d),
        ticks(d) <= v,
    ensures
        is_finite(round(v, Rounding::Down) as u64),
        ticks(d) <= ticks(round(v, Rounding::Down) as u64),
{
    let a = abs_bits(d);
    assert(magnitude(d) == magnitude(a));
    if v >= 0 {
        let r = round_magnitude(v as nat, Rounding::Down);
        lemma_round_magnitude(v as nat, Rounding::Down);
        if !is_negative(d) {
            lemma_round_magnitude_down_greatest(v as nat, a);
            if a < r {
                lemma_magnitude_increases(a, r as u64);
            }
        }
    } else {
        let r = round_magnitude((-v) as nat, Rounding::Up);
        lemma_round_magnitude((-v) as nat, Rounding::Up);
        lemma_round_magnitude_up_least((-v) as nat, a);
        if r < a {
            lemma_magnitude_increases(r as u64, a);
        }
        let signed = (SIGN_BIT + r) as u64;
        assert(abs_bits(signed) == r);
        assert(magnitude(signed) == magnitude(r as u64));
    }
}

/// Rounding up gives the least binary64 number that is not below the value:
/// no finite number lies below the result and not below the value.
pub proof fn lemma_round_up_is_least(v: int, d: u64)
    requires
        is_finite(d),
        ticks(d) >= v,
    ensures
        is_finite(round(v, Rounding::Up) as u64),
        ticks(d) >= ticks(round(v, Rounding::Up) as u64),
{
    let a = abs_bits(d);
    assert(magnitude(d) == magnitude(a));
    if v >= 0 {
        let r = round_magnitude(v as nat, Rounding::Up);
        lemma_round_magnitude(v as nat, Rounding::Up);
        if v > 0 {
            lemma_infinity_magnitude();
            if a > 0 {
                lemma_magnitude_increases(0, a);
            }
            assert(!is_negative(d));
        }
        if !is_negative(d) {
            lemma_round_magnitude_up_least(v as nat, a);
            if r < a {
                lemma_magnitude_increases(r as u64, a);
            }
        } else {
            // Only a zero with a sign is not below a value of zero.
            lemma_round_zero(Rounding::Up);
            lemma_infinity_magnitude();
        }
    } else {
        let r = round_magnitude((-v) as nat, Rounding::Down);
        lemma_round_magnitude((-v) as nat, Rounding::Down);
        let signed = (SIGN_BIT + r) as u64;
        assert(abs_bits(signed) == r);
        assert(magnitude(signed) == magnitude(r as u64));
        if is_negative(d) {
            lemma_round_magnitude_down_greatest((-v) as nat, a);
            if a < r {
                lemma_magnitude_increases(a, r as u64);
            }
        }
    }
}

} // verus!
