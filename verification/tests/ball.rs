use relation_core::arb::{frexp, radius, Acb, Arb, ArbData, ArfData, ArfKind, ArfRound, Arf, MagData};
use relation_core::float::Dyadic;
use relation_core::interval::Interval;

fn interval(a: f64, b: f64) -> Interval {
    Interval::new(a.to_bits(), b.to_bits()).unwrap()
}

fn inf(x: &Interval) -> f64 {
    f64::from_bits(x.inf)
}

fn sup(x: &Interval) -> f64 {
    f64::from_bits(x.sup)
}

#[test]
fn inclusion_property() {
    let xs = [
        Interval::empty(),
        interval(0.0, 0.0),
        interval(1.0, 1.0),
        interval(3.141592653589793, 3.1415926535897936),
        interval(0.0, f64::INFINITY),
        interval(f64::NEG_INFINITY, 0.0),
        Interval::entire(),
        // The case where rounding up the radius produces a carry.
        interval(0.0, 1.9999999990686774),
    ];
    for x in &xs {
        let y = Arb::from_interval(*x).to_interval();
        assert!(x.subset(&y));
    }
}

#[test]
fn inclusion_holds_for_many_intervals() {
    let mut state: u64 = 0x9e37_79b9_7f4a_7c15;
    let mut checked = 0;
    for _ in 0..20000 {
        state = state.wrapping_mul(6364136223846793005).wrapping_add(1442695040888963407);
        let a = f64::from_bits(state);
        state = state.wrapping_mul(6364136223846793005).wrapping_add(1442695040888963407);
        let b = f64::from_bits(state);
        if a.is_nan() || b.is_nan() {
            continue;
        }
        let (lo, hi) = if a <= b { (a, b) } else { (b, a) };
        if let Some(x) = Interval::new(lo.to_bits(), hi.to_bits()) {
            let y = Arb::from_interval(x).to_interval();
            assert!(x.subset(&y), "{:?} is not within {:?}", x, y);
            assert!(inf(&y) <= lo && hi <= sup(&y));
            checked += 1;
        }
    }
    assert!(checked > 10000);
}

#[test]
fn inclusion_is_tight_for_narrow_intervals() {
    // The ball of [1, 1 + 2^-20] has an exact midpoint and an exact radius.
    let x = interval(1.0, 1.0 + 1.0 / 1048576.0);
    let y = Arb::from_interval(x).to_interval();
    assert_eq!(inf(&y), 1.0);
    assert_eq!(sup(&y), 1.0 + 1.0 / 1048576.0);
}

#[test]
fn unbounded_intervals_give_the_ball_that_encloses_everything() {
    for x in [Interval::empty(), interval(0.0, f64::INFINITY), Interval::entire()] {
        let ball = Arb::from_interval(x);
        assert!(ball.0.rad.infinite);
        assert_eq!(ball.0.mid.kind, ArfKind::Finite);
        assert_eq!(ball.0.mid.value.mantissa, 0);
        assert_eq!(ball.to_interval(), Interval::entire());
    }
}

#[test]
fn radius_rounding_carries_into_the_exponent() {
    let ball = Arb::from_interval(interval(0.0, 1.9999999990686774));
    // The midpoint is 0.9999999995343387, the radius the same number: 31 ones
    // after the binary point, which rounds up to 1 = 0.1 (binary) * 2^1.
    assert_eq!(ball.0.rad.man, 1 << 29);
    assert_eq!(ball.0.rad.exp, 1);
    assert!(!ball.0.rad.infinite);
    let y = ball.to_interval();
    assert!(inf(&y) <= 0.0);
    assert!(sup(&y) >= 1.9999999990686774);
    assert!(sup(&y) <= 2.0);
}

#[test]
fn radius_mantissa_is_rounded_up() {
    // 1 + 2^-52 needs 53 digits: 30 digits rounded up are 2^29 + 1.
    let r = radius((1.0f64 + f64::EPSILON).to_bits());
    assert_eq!(r, MagData { exp: 1, man: (1 << 29) + 1, infinite: false });
    // 1.5 is exact in 30 digits.
    let r = radius(1.5f64.to_bits());
    assert_eq!(r, MagData { exp: 1, man: 3 << 28, infinite: false });
    // The least positive number.
    let r = radius(1u64);
    assert_eq!(r, MagData { exp: -1073, man: 1 << 29, infinite: false });
    // The largest finite number carries.
    let r = radius(f64::MAX.to_bits());
    assert_eq!(r, MagData { exp: 1025, man: 1 << 29, infinite: false });
}

#[test]
fn frexp_splits_mantissa_and_exponent() {
    assert_eq!(frexp(1.0f64.to_bits()), (0.5f64.to_bits(), 1));
    assert_eq!(frexp(0.75f64.to_bits()), (0.75f64.to_bits(), 0));
    assert_eq!(frexp((-6.0f64).to_bits()), ((-0.75f64).to_bits(), 3));
    assert_eq!(frexp(f64::MAX.to_bits()), ((1.0 - f64::EPSILON / 2.0).to_bits(), 1024));
    assert_eq!(frexp(f64::MIN_POSITIVE.to_bits()), (0.5f64.to_bits(), -1021));
    // Subnormal numbers.
    assert_eq!(frexp(1u64), (0.5f64.to_bits(), -1073));
    assert_eq!(frexp(3u64), (0.75f64.to_bits(), -1072));
    // What has no mantissa is returned as it is.
    assert_eq!(frexp(0.0f64.to_bits()), (0.0f64.to_bits(), 0));
    assert_eq!(frexp((-0.0f64).to_bits()), ((-0.0f64).to_bits(), 0));
    assert_eq!(frexp(f64::INFINITY.to_bits()), (f64::INFINITY.to_bits(), 0));
    assert_eq!(frexp(f64::NAN.to_bits()), (f64::NAN.to_bits(), 0));
}

#[test]
fn point_round_trip() {
    for x in [1.0f64, -1.0, 0.1, 3.141592653589793, f64::MAX, f64::MIN, f64::MIN_POSITIVE, 5e-324, -5e-324, 1e300] {
        let y = Arb::from_f64(x.to_bits()).to_interval();
        assert_eq!(y.inf, x.to_bits());
        assert_eq!(y.sup, x.to_bits());
    }
    // A zero is stored as -0 below and +0 above.
    for x in [0.0f64, -0.0] {
        let y = Arb::from_f64(x.to_bits()).to_interval();
        assert_eq!(inf(&y), 0.0);
        assert_eq!(sup(&y), 0.0);
        assert_eq!(y.inf, (-0.0f64).to_bits());
        assert_eq!(y.sup, 0.0f64.to_bits());
    }
}

#[test]
fn balls_that_are_not_finite_give_all_reals() {
    for x in [f64::INFINITY, f64::NEG_INFINITY, f64::NAN] {
        assert_eq!(Arb::from_f64(x.to_bits()).to_interval(), Interval::entire());
    }
    assert_eq!(Arb::from_f64(f64::INFINITY.to_bits()).0.mid.kind, ArfKind::PosInf);
    assert_eq!(Arb::from_f64(f64::NEG_INFINITY.to_bits()).0.mid.kind, ArfKind::NegInf);
    assert_eq!(Arb::from_f64(f64::NAN.to_bits()).0.mid.kind, ArfKind::Nan);
}

#[test]
fn new_balls_are_zero() {
    let ball = Arb::new();
    assert_eq!(ball.0, ArbData {
        mid: ArfData { kind: ArfKind::Finite, value: Dyadic { negative: false, mantissa: 0, exponent: 0 } },
        rad: MagData { exp: 0, man: 0, infinite: false },
    });
    let y = ball.to_interval();
    assert_eq!(inf(&y), 0.0);
    assert_eq!(sup(&y), 0.0);
    assert_eq!(Arf::new().to_f64_round(ArfRound::Floor), 0);
}

#[test]
fn ball_with_a_radius_is_rounded_outwards() {
    // 1 ± 2^-60: the bounds are the neighbours of 1.
    let mut ball = Arb::from_f64(1.0f64.to_bits());
    {
        let state = ball.as_mut_ptr();
        state.rad = MagData { exp: -59, man: 1 << 29, infinite: false };
    }
    assert_eq!(ball.as_ptr().rad.exp, -59);
    let y = ball.to_interval();
    assert_eq!(inf(&y), 1.0 - f64::EPSILON / 2.0);
    assert_eq!(sup(&y), 1.0 + f64::EPSILON);
    // 1 ± 2^-2000: the radius lies far below the last digit.
    let mut ball = Arb::from_f64(1.0f64.to_bits());
    ball.as_mut_ptr().rad = MagData { exp: -1079, man: 1 << 29, infinite: false };
    let y = ball.to_interval();
    assert_eq!(inf(&y), 1.0 - f64::EPSILON / 2.0);
    assert_eq!(sup(&y), 1.0 + f64::EPSILON);
    // The largest number with a radius: the upper bound is infinite.
    let mut ball = Arb::from_f64(f64::MAX.to_bits());
    ball.as_mut_ptr().rad = MagData { exp: 1, man: 1 << 29, infinite: false };
    let y = ball.to_interval();
    assert_eq!(sup(&y), f64::INFINITY);
    assert!(inf(&y) < f64::MAX);
}

#[test]
fn midpoints_are_rounded_by_the_given_mode() {
    // 1 + 2^-60 as a midpoint with 61 digits does not fit an operand; 3 * 2^-1076 does.
    let mut x = Arf::new();
    x.as_mut_ptr().value = Dyadic { negative: false, mantissa: 3, exponent: -1076 };
    assert_eq!(x.to_f64_round(ArfRound::Floor), 0);
    assert_eq!(x.to_f64_round(ArfRound::Ceil), 1);
    x.as_mut_ptr().value = Dyadic { negative: true, mantissa: 3, exponent: -1076 };
    assert_eq!(x.to_f64_round(ArfRound::Floor), (-5e-324f64).to_bits());
    assert_eq!(f64::from_bits(x.to_f64_round(ArfRound::Ceil)), 0.0);
    assert_eq!(x.as_ptr().kind, ArfKind::Finite);
}

#[test]
fn complex_balls_keep_their_real_part() {
    let x = Arb::from_interval(interval(1.0, 2.0));
    let z = Acb::from(x.clone());
    assert_eq!(z.real_part(), x);
    assert_eq!(z.as_ptr().imag, Arb::new().0);
    assert_eq!(z.clone(), z);
    let mut w = Acb::new();
    assert_eq!(w.real_part(), Arb::new());
    w.as_mut_ptr().real = x.0;
    assert_eq!(w.real_part(), x);
}
