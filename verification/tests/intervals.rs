use relation_core::float::{at_most, decode, round_dyadic, round_sum, Dyadic, Rounding};
use relation_core::interval::Interval;

fn interval(a: f64, b: f64) -> Interval {
    Interval::new(a.to_bits(), b.to_bits()).unwrap()
}

fn next_up(x: f64) -> f64 {
    if x.is_nan() || x == f64::INFINITY {
        x
    } else if x == 0.0 {
        f64::from_bits(1)
    } else if x > 0.0 {
        f64::from_bits(x.to_bits() + 1)
    } else {
        f64::from_bits(x.to_bits() - 1)
    }
}

#[test]
fn intervals_are_validated() {
    assert!(Interval::new(1.0f64.to_bits(), 2.0f64.to_bits()).is_some());
    assert!(Interval::new(2.0f64.to_bits(), 1.0f64.to_bits()).is_none());
    assert!(Interval::new(f64::NAN.to_bits(), 1.0f64.to_bits()).is_none());
    assert!(Interval::new(1.0f64.to_bits(), f64::NAN.to_bits()).is_none());
    assert!(Interval::new(f64::INFINITY.to_bits(), f64::INFINITY.to_bits()).is_none());
    assert!(Interval::new(f64::NEG_INFINITY.to_bits(), f64::NEG_INFINITY.to_bits()).is_none());
    assert_eq!(Interval::new(f64::NEG_INFINITY.to_bits(), f64::INFINITY.to_bits()), Some(Interval::entire()));
    // Zeros are stored as -0 below and +0 above.
    let z = interval(0.0, -0.0);
    assert_eq!(z.inf, (-0.0f64).to_bits());
    assert_eq!(z.sup, 0.0f64.to_bits());
}

#[test]
fn intervals_are_classified() {
    assert!(Interval::empty().is_empty());
    assert!(!Interval::entire().is_empty());
    assert!(!Interval::empty().is_common_interval());
    assert!(!Interval::entire().is_common_interval());
    assert!(!interval(0.0, f64::INFINITY).is_common_interval());
    assert!(interval(-1.0, 1.0).is_common_interval());
}

#[test]
fn subsets_are_decided() {
    let e = Interval::empty();
    let a = interval(1.0, 2.0);
    let b = interval(0.0, 3.0);
    assert!(e.subset(&e));
    assert!(e.subset(&a));
    assert!(!a.subset(&e));
    assert!(a.subset(&b));
    assert!(!b.subset(&a));
    assert!(a.subset(&a));
    assert!(b.subset(&Interval::entire()));
    assert!(!Interval::entire().subset(&b));
    assert!(interval(-0.0, 0.0).subset(&interval(0.0, 0.0)));
}

#[test]
fn midpoint_and_radius() {
    let x = interval(-2.0, 3.0);
    assert_eq!(f64::from_bits(x.mid()), 0.5);
    assert_eq!(f64::from_bits(x.rad()), 2.5);
    let x = interval(1.0, 1.0);
    assert_eq!(f64::from_bits(x.mid()), 1.0);
    assert_eq!(f64::from_bits(x.rad()), 0.0);
    let x = interval(f64::MIN, f64::MAX);
    assert_eq!(f64::from_bits(x.mid()), 0.0);
    assert_eq!(f64::from_bits(x.rad()), f64::MAX);
    let x = interval(f64::MAX, f64::MAX);
    assert_eq!(f64::from_bits(x.mid()), f64::MAX);
    assert_eq!(f64::from_bits(x.rad()), 0.0);
    // The midpoint of [1, 1 + 2^-52] takes 54 digits: it is rounded to the
    // even neighbour 1, and the radius is the whole width.
    let x = interval(1.0, 1.0 + f64::EPSILON);
    assert_eq!(f64::from_bits(x.mid()), 1.0);
    assert_eq!(f64::from_bits(x.rad()), f64::EPSILON);
}

#[test]
fn midpoint_and_radius_of_unbounded_intervals() {
    assert!(f64::from_bits(Interval::empty().mid()).is_nan());
    assert!(f64::from_bits(Interval::empty().rad()).is_nan());
    assert_eq!(Interval::entire().mid(), 0.0f64.to_bits());
    assert_eq!(f64::from_bits(Interval::entire().rad()), f64::INFINITY);
    let x = interval(f64::NEG_INFINITY, 3.0);
    assert_eq!(f64::from_bits(x.mid()), f64::MIN);
    assert_eq!(f64::from_bits(x.rad()), f64::INFINITY);
    let x = interval(-2.0, f64::INFINITY);
    assert_eq!(f64::from_bits(x.mid()), f64::MAX);
    assert_eq!(f64::from_bits(x.rad()), f64::INFINITY);
    // A midpoint of zero is +0.
    assert_eq!(interval(-1.0, 1.0).mid(), 0.0f64.to_bits());
    assert_eq!(interval(-5e-324, 0.0).mid(), 0.0f64.to_bits());
    assert_eq!(interval(0.0, 0.0).rad(), 0.0f64.to_bits());
}

#[test]
fn radius_covers_the_interval_from_the_midpoint() {
    let mut state: u64 = 42;
    for _ in 0..5000 {
        state = state.wrapping_mul(6364136223846793005).wrapping_add(1442695040888963407);
        let a = f64::from_bits(state);
        state = state.wrapping_mul(6364136223846793005).wrapping_add(1442695040888963407);
        let b = f64::from_bits(state);
        if !a.is_finite() || !b.is_finite() {
            continue;
        }
        let (lo, hi) = if a <= b { (a, b) } else { (b, a) };
        let x = interval(lo, hi);
        let m = f64::from_bits(x.mid());
        let r = f64::from_bits(x.rad());
        assert!(lo <= m && m <= hi);
        assert!(r >= 0.0);
        assert!(r >= m - lo && r >= hi - m);
    }
}

#[test]
fn sums_are_rounded_to_nearest_as_the_machine_does() {
    let mut state: u64 = 7;
    let mut finite = 0;
    for i in 0..40000 {
        state = state.wrapping_mul(6364136223846793005).wrapping_add(1442695040888963407);
        let a = f64::from_bits(state);
        state = state.wrapping_mul(6364136223846793005).wrapping_add(1442695040888963407);
        // Every other pair has nearby exponents, so that digits cancel.
        let b = if i % 2 == 0 {
            f64::from_bits(state)
        } else {
            f64::from_bits((a.to_bits() & 0xfff0_0000_0000_0000) ^ (state & 0x800f_ffff_ffff_ffff))
        };
        if !a.is_finite() || !b.is_finite() {
            continue;
        }
        let expected = a + b;
        let got = f64::from_bits(round_sum(decode(a.to_bits()), decode(b.to_bits()), Rounding::Nearest));
        if expected == 0.0 {
            assert_eq!(got, 0.0);
        } else {
            assert_eq!(got.to_bits(), expected.to_bits(), "{:e} + {:e}", a, b);
        }
        let down = f64::from_bits(round_sum(decode(a.to_bits()), decode(b.to_bits()), Rounding::Down));
        let up = f64::from_bits(round_sum(decode(a.to_bits()), decode(b.to_bits()), Rounding::Up));
        assert!(down <= up);
        if expected.is_finite() {
            assert!(down <= expected && expected <= up);
            assert!(down == up || up == next_up(down), "{:e} + {:e}: {:e} {:e}", a, b, down, up);
            finite += 1;
        }
    }
    assert!(finite > 10000);
}

#[test]
fn sums_are_rounded_in_the_given_direction() {
    let one = decode(1.0f64.to_bits());
    let tiny = decode(1e-300f64.to_bits());
    let minus_tiny = Dyadic { negative: true, mantissa: tiny.mantissa, exponent: tiny.exponent };
    assert_eq!(f64::from_bits(round_sum(one, tiny, Rounding::Down)), 1.0);
    assert_eq!(f64::from_bits(round_sum(one, tiny, Rounding::Nearest)), 1.0);
    assert_eq!(f64::from_bits(round_sum(one, tiny, Rounding::Up)), 1.0 + f64::EPSILON);
    assert_eq!(f64::from_bits(round_sum(one, minus_tiny, Rounding::Down)), 1.0 - f64::EPSILON / 2.0);
    assert_eq!(f64::from_bits(round_sum(one, minus_tiny, Rounding::Nearest)), 1.0);
    assert_eq!(f64::from_bits(round_sum(one, minus_tiny, Rounding::Up)), 1.0);
    // Ties go to the even neighbour: 1 + 2^-53 to 1, 1 + 3 * 2^-53 to 1 + 2^-51.
    let half_ulp = Dyadic { negative: false, mantissa: 1, exponent: -53 };
    assert_eq!(f64::from_bits(round_sum(one, half_ulp, Rounding::Nearest)), 1.0);
    let three_half_ulps = Dyadic { negative: false, mantissa: 3, exponent: -53 };
    assert_eq!(f64::from_bits(round_sum(one, three_half_ulps, Rounding::Nearest)), 1.0 + 2.0 * f64::EPSILON);
    // Overflow.
    let max = decode(f64::MAX.to_bits());
    assert_eq!(f64::from_bits(round_sum(max, max, Rounding::Down)), f64::MAX);
    assert_eq!(f64::from_bits(round_sum(max, max, Rounding::Up)), f64::INFINITY);
    assert_eq!(f64::from_bits(round_sum(max, max, Rounding::Nearest)), f64::INFINITY);
    // Opposite numbers cancel to +0.
    let minus_one = decode((-1.0f64).to_bits());
    assert_eq!(round_sum(one, minus_one, Rounding::Down), 0);
    // Underflow to the least numbers.
    let below_least = Dyadic { negative: false, mantissa: 1, exponent: -1080 };
    assert_eq!(round_dyadic(below_least, Rounding::Down), 0);
    assert_eq!(round_dyadic(below_least, Rounding::Up), 1);
    assert_eq!(round_dyadic(below_least, Rounding::Nearest), 0);
}

#[test]
fn numbers_are_compared_by_value() {
    let values = [f64::NEG_INFINITY, f64::MIN, -1.0, -5e-324, -0.0, 0.0, 5e-324, 1.0, f64::MAX, f64::INFINITY];
    for a in values {
        for b in values {
            assert_eq!(at_most(a.to_bits(), b.to_bits()), a <= b, "{:e} <= {:e}", a, b);
        }
    }
}

#[test]
fn numbers_are_decoded() {
    assert_eq!(decode(1.0f64.to_bits()), Dyadic { negative: false, mantissa: 1 << 52, exponent: -52 });
    assert_eq!(decode((-3.0f64).to_bits()), Dyadic { negative: true, mantissa: 3 << 51, exponent: -51 });
    assert_eq!(decode(5e-324f64.to_bits()), Dyadic { negative: false, mantissa: 1, exponent: -1074 });
    assert_eq!(decode(0.0f64.to_bits()), Dyadic { negative: false, mantissa: 0, exponent: -1074 });
}
