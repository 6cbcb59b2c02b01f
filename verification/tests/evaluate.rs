use relation_core::ast::{Expr, ExprKind};
use relation_core::eval::{apply_enclosure, apply_exact, apply_ranked, next_enclosure, next_exact, Step};
use relation_core::float::{decode, round_sum, Dyadic, Rounding};
use relation_core::interval::{Decoration, Enclosure, Interval};
use relation_core::ops::{BinaryOp, Track, UnaryOp};
use relation_core::rational::Rational;
use relation_core::service::{NamedConstant, Operation, Reply, Request};

// A small numeric service: exact arithmetic on fractions that fit in 64 bits,
// and outward-rounded sums and differences of enclosures.

fn gcd(a: u64, b: u64) -> u64 {
    if b == 0 { a } else { gcd(b, a % b) }
}

fn value(bytes: &[u8]) -> u64 {
    bytes.iter().rev().fold(0, |acc, b| acc * 256 + *b as u64)
}

fn fraction(q: &Rational) -> (i64, i64) {
    let n = value(&q.numer) as i64;
    (if q.negative { -n } else { n }, value(&q.denom) as i64)
}

fn rational(n: i64, d: i64) -> Rational {
    let (n, d) = if d < 0 { (-n, -d) } else { (n, d) };
    let g = gcd(n.unsigned_abs(), d as u64).max(1);
    Rational::from_parts(n < 0, n.unsigned_abs() / g, d as u64 / g)
}

fn next_up(x: f64) -> f64 {
    if x == 0.0 {
        f64::from_bits(1)
    } else if x > 0.0 {
        f64::from_bits(x.to_bits() + 1)
    } else {
        f64::from_bits(x.to_bits() - 1)
    }
}

fn next_down(x: f64) -> f64 {
    -next_up(-x)
}

fn enclosure(a: f64, b: f64) -> Enclosure {
    Enclosure { interval: Interval::new(a.to_bits(), b.to_bits()).unwrap(), decoration: Decoration::Com }
}

/// The tightest enclosure of n/d, for small n and d.
fn tightest(n: i64, d: i64) -> Enclosure {
    let x = n as f64 / d as f64;
    let Dyadic { negative, mantissa, exponent } = decode(x.to_bits());
    let m = if negative { -(mantissa as i128) } else { mantissa as i128 };
    // Compare x = m * 2^exponent with n / d.
    let (lhs, rhs) = if exponent >= 0 {
        ((m << exponent) * d as i128, n as i128)
    } else {
        (m * d as i128, (n as i128) << -exponent)
    };
    if lhs == rhs {
        enclosure(x, x)
    } else if lhs < rhs {
        enclosure(x, next_up(x))
    } else {
        enclosure(next_down(x), x)
    }
}

fn bound(e: &Enclosure, upper: bool) -> Dyadic {
    decode(if upper { e.interval.sup } else { e.interval.inf })
}

fn negate(d: Dyadic) -> Dyadic {
    Dyadic { negative: !d.negative, mantissa: d.mantissa, exponent: d.exponent }
}

fn between(lo: u64, hi: u64) -> Enclosure {
    Enclosure { interval: Interval::new(lo, hi).unwrap(), decoration: Decoration::Com }
}

fn apply(op: Operation, xs: &[Enclosure]) -> Enclosure {
    match op {
        Operation::Binary(BinaryOp::Add) => between(
            round_sum(bound(&xs[0], false), bound(&xs[1], false), Rounding::Down),
            round_sum(bound(&xs[0], true), bound(&xs[1], true), Rounding::Up),
        ),
        Operation::Binary(BinaryOp::Sub) => between(
            round_sum(bound(&xs[0], false), negate(bound(&xs[1], true)), Rounding::Down),
            round_sum(bound(&xs[0], true), negate(bound(&xs[1], false)), Rounding::Up),
        ),
        Operation::Unary(UnaryOp::Neg) => Enclosure {
            interval: Interval::new(xs[0].interval.sup ^ (1 << 63), xs[0].interval.inf ^ (1 << 63)).unwrap(),
            decoration: xs[0].decoration,
        },
        // The operands in the order in which they arrive: from the lower
        // bound of the first to the upper bound of the last.
        Operation::Binary(BinaryOp::RankedMin) | Operation::Binary(BinaryOp::RankedMax)
        | Operation::Binary(BinaryOp::Log) | Operation::Binary(BinaryOp::Atan2) => {
            between(xs[0].interval.inf, xs[xs.len() - 1].interval.sup)
        },
        Operation::Unary(UnaryOp::Sqrt) => {
            let a = f64::from_bits(xs[0].interval.inf).sqrt();
            let b = f64::from_bits(xs[0].interval.sup).sqrt();
            if a * a == f64::from_bits(xs[0].interval.inf) && b * b == f64::from_bits(xs[0].interval.sup) {
                enclosure(a, b)
            } else {
                enclosure(next_down(a), next_up(b))
            }
        },
        Operation::Rootn(n) => enclosure(n as f64, n as f64),
        _ => Enclosure::entire(),
    }
}

fn exact(op: Operation, qs: &[Rational]) -> Option<Rational> {
    let f: Vec<(i64, i64)> = qs.iter().map(fraction).collect();
    match op {
        Operation::Unary(UnaryOp::Neg) => Some(rational(-f[0].0, f[0].1)),
        Operation::Unary(UnaryOp::Abs) => Some(rational(f[0].0.abs(), f[0].1)),
        Operation::Unary(UnaryOp::Sqr) => Some(rational(f[0].0 * f[0].0, f[0].1 * f[0].1)),
        Operation::Unary(UnaryOp::Floor) => Some(rational(f[0].0.div_euclid(f[0].1), 1)),
        Operation::Unary(UnaryOp::Ceil) => Some(rational(-(-f[0].0).div_euclid(f[0].1), 1)),
        Operation::Binary(BinaryOp::Add) => Some(rational(f[0].0 * f[1].1 + f[1].0 * f[0].1, f[0].1 * f[1].1)),
        Operation::Binary(BinaryOp::Sub) => Some(rational(f[0].0 * f[1].1 - f[1].0 * f[0].1, f[0].1 * f[1].1)),
        Operation::Binary(BinaryOp::Mul) => Some(rational(f[0].0 * f[1].0, f[0].1 * f[1].1)),
        Operation::Binary(BinaryOp::Div) => {
            if f[1].0 == 0 {
                None
            } else {
                Some(rational(f[0].0 * f[1].1, f[0].1 * f[1].0))
            }
        },
        _ => None,
    }
}

fn recover(e: &Enclosure) -> Option<Rational> {
    let a = f64::from_bits(e.interval.inf);
    let b = f64::from_bits(e.interval.sup);
    if a == b && a.fract() == 0.0 && a.abs() < 1e15 {
        Some(rational(a as i64, 1))
    } else {
        None
    }
}

fn service(request: Request) -> Reply {
    match request {
        Request::Literal(text) => {
            let digits: String = text.chars().filter(|c| *c != '.').collect();
            let places = text.find('.').map(|i| text.len() - i - 1).unwrap_or(0);
            let n: i64 = digits.parse().unwrap();
            let d = 10i64.pow(places as u32);
            Reply::Constant(tightest(n, d), Some(rational(n, d)))
        },
        Request::Named(NamedConstant::Pi) => {
            Reply::Constant(enclosure(3.141592653589793, 3.1415926535897936), None)
        },
        Request::Named(NamedConstant::E) => Reply::Constant(enclosure(2.718281828459045, 2.7182818284590455), None),
        Request::Apply(op, xs) => Reply::Enclosure(apply(op, &xs)),
        Request::Exact(op, qs) => Reply::Exact(exact(op, &qs)),
        Request::Enclose(q) => {
            let (n, d) = fraction(&q);
            Reply::Enclosure(tightest(n, d))
        },
        Request::Recover(e) => Reply::Exact(recover(&e)),
    }
}

fn node(kind: ExprKind) -> Expr {
    let mut e = Expr::new(kind);
    e.update_metadata();
    e
}

fn var(name: &str) -> Expr {
    node(ExprKind::Var(name.to_string()))
}

fn number(n: i64) -> Expr {
    node(ExprKind::Constant(Box::new((tightest(n, 1), Some(rational(n, 1))))))
}

fn inexact(a: f64, b: f64) -> Expr {
    node(ExprKind::Constant(Box::new((enclosure(a, b), None))))
}

fn unary(op: UnaryOp, x: Expr) -> Expr {
    node(ExprKind::Unary(op, Box::new(x)))
}

fn binary(op: BinaryOp, x: Expr, y: Expr) -> Expr {
    node(ExprKind::Binary(op, Box::new(x), Box::new(y)))
}

fn same(a: &Option<Rational>, n: i64, d: i64) -> bool {
    a.as_ref().map(|q| q.same(&rational(n, d))).unwrap_or(false)
}

#[test]
fn constants_evaluate_to_themselves() {
    let (e, q) = number(3).eval(&service).unwrap();
    assert_eq!(e, enclosure(3.0, 3.0));
    assert!(same(&q, 3, 1));
    let (e, q) = inexact(1.0, 2.0).eval(&service).unwrap();
    assert_eq!(e, enclosure(1.0, 2.0));
    assert!(q.is_none());
}

#[test]
fn exact_path_correctness() {
    let third = || binary(BinaryOp::Div, number(1), number(3));
    let (e, q) = third().eval(&service).unwrap();
    assert!(same(&q, 1, 3));
    assert_eq!(e.interval.inf, 0x3fd5_5555_5555_5555);
    assert_eq!(e.interval.sup, 0x3fd5_5555_5555_5556);
    let (e, q) = binary(BinaryOp::Add, third(), third()).eval(&service).unwrap();
    assert!(same(&q, 2, 3));
    // The tight enclosure of 2/3: its two neighbours.
    assert_eq!(e.interval.inf, 0x3fe5_5555_5555_5555);
    assert_eq!(e.interval.sup, 0x3fe5_5555_5555_5556);
    assert_eq!(f64::from_bits(e.interval.inf), 0.6666666666666666);
    assert_eq!(f64::from_bits(e.interval.sup), 0.6666666666666667);
    // Three thirds are one, exactly: enclosure arithmetic alone would widen.
    let (e, q) = binary(BinaryOp::Add, binary(BinaryOp::Add, third(), third()), third()).eval(&service).unwrap();
    assert!(same(&q, 1, 1));
    assert_eq!(e, enclosure(1.0, 1.0));
}

#[test]
fn exact_operators_take_the_exact_path() {
    let (e, q) = unary(UnaryOp::Neg, number(3)).eval(&service).unwrap();
    assert!(same(&q, -3, 1));
    assert_eq!(e, enclosure(-3.0, -3.0));
    let (_, q) = unary(UnaryOp::Abs, unary(UnaryOp::Neg, number(3))).eval(&service).unwrap();
    assert!(same(&q, 3, 1));
    let (_, q) = unary(UnaryOp::Sqr, binary(BinaryOp::Div, number(2), number(3))).eval(&service).unwrap();
    assert!(same(&q, 4, 9));
    let (_, q) = unary(UnaryOp::Floor, binary(BinaryOp::Div, number(7), number(2))).eval(&service).unwrap();
    assert!(same(&q, 3, 1));
    let (_, q) = unary(UnaryOp::Ceil, binary(BinaryOp::Div, number(7), number(2))).eval(&service).unwrap();
    assert!(same(&q, 4, 1));
    let (_, q) = binary(BinaryOp::Mul, number(6), binary(BinaryOp::Div, number(1), number(4))).eval(&service)
        .unwrap();
    assert!(same(&q, 3, 2));
    let (e, q) = binary(BinaryOp::Sub, number(1), binary(BinaryOp::Div, number(1), number(10))).eval(&service)
        .unwrap();
    assert!(same(&q, 9, 10));
    // The binary64 number 0.9 lies above 9/10.
    assert_eq!(f64::from_bits(e.interval.inf), 0.8999999999999999);
    assert_eq!(f64::from_bits(e.interval.sup), 0.9);
}

#[test]
fn undefined_exact_results_fall_back_to_enclosures() {
    // Division by zero has no exact result: the enclosures are divided.
    let (e, q) = binary(BinaryOp::Div, number(1), number(0)).eval(&service).unwrap();
    assert!(q.is_none());
    assert_eq!(e, Enclosure::entire());
    // An operand without an exact value: the enclosures are added.
    let (e, q) = binary(BinaryOp::Add, number(1), inexact(1.0, 2.0)).eval(&service).unwrap();
    assert!(q.is_none());
    assert_eq!(e, enclosure(2.0, 3.0));
    let (e, q) = binary(BinaryOp::Sub, inexact(1.0, 2.0), inexact(0.25, 0.5)).eval(&service).unwrap();
    assert!(q.is_none());
    assert_eq!(e, enclosure(0.5, 1.75));
    // The sum of inexact enclosures is rounded outwards.
    let (e, _) = binary(BinaryOp::Add, inexact(0.1, 0.1), inexact(0.2, 0.2)).eval(&service).unwrap();
    assert_eq!(f64::from_bits(e.interval.inf), 0.30000000000000004 - 5.551115123125783e-17);
    assert_eq!(f64::from_bits(e.interval.sup), 0.30000000000000004);
    // An operator whose exact definition the service does not know.
    let (e, q) = binary(BinaryOp::Gcd, number(4), number(6)).eval(&service).unwrap();
    assert!(q.is_none());
    assert_eq!(e, Enclosure::entire());
}

#[test]
fn other_operators_are_evaluated_on_enclosures() {
    // The exact value is recovered from a result that is a single point.
    let (e, q) = unary(UnaryOp::Sqrt, number(4)).eval(&service).unwrap();
    assert_eq!(e, enclosure(2.0, 2.0));
    assert!(same(&q, 2, 1));
    let (e, q) = unary(UnaryOp::Sqrt, number(2)).eval(&service).unwrap();
    assert!(q.is_none());
    assert!(f64::from_bits(e.interval.inf) < f64::from_bits(e.interval.sup));
    // The exact values of the operands are not used.
    let (e, q) = unary(UnaryOp::Sin, number(0)).eval(&service).unwrap();
    assert_eq!(e, Enclosure::entire());
    assert!(q.is_none());
    let (e, q) = node(ExprKind::Rootn(Box::new(number(8)), 3)).eval(&service).unwrap();
    assert_eq!(e, enclosure(3.0, 3.0));
    assert!(same(&q, 3, 1));
    // The operands arrive in the order of the tree.
    let (e, _) = binary(BinaryOp::Log, number(2), number(8)).eval(&service).unwrap();
    assert_eq!(e, enclosure(2.0, 8.0));
    let (e, _) = binary(BinaryOp::Atan2, number(1), number(5)).eval(&service).unwrap();
    assert_eq!(e, enclosure(1.0, 5.0));
}

#[test]
fn ranked_operators_take_a_list() {
    let list = node(ExprKind::List(vec![number(3), number(1), number(2)]));
    let e = binary(BinaryOp::RankedMin, list, number(7));
    let (e, q) = e.eval(&service).unwrap();
    // The elements in order, then the rank.
    assert_eq!(e, enclosure(3.0, 7.0));
    assert!(q.is_none());
    let empty = node(ExprKind::List(vec![]));
    let (e, q) = binary(BinaryOp::RankedMax, empty, number(1)).eval(&service).unwrap();
    assert_eq!(e, enclosure(1.0, 1.0));
    assert!(q.is_none());
    // An element or a rank that is not constant.
    let list = node(ExprKind::List(vec![number(3), var("x"), number(2)]));
    assert!(binary(BinaryOp::RankedMin, list, number(1)).eval(&service).is_none());
    let list = node(ExprKind::List(vec![number(3), number(2)]));
    assert!(binary(BinaryOp::RankedMax, list, var("y")).eval(&service).is_none());
}

#[test]
fn non_constant_propagation() {
    assert!(var("x").eval(&service).is_none());
    assert!(binary(BinaryOp::Add, var("x"), number(1)).eval(&service).is_none());
    assert!(binary(BinaryOp::Add, number(1), var("y")).eval(&service).is_none());
    assert!(unary(UnaryOp::Sin, var("x")).eval(&service).is_none());
    assert!(unary(UnaryOp::Neg, var("x")).eval(&service).is_none());
    assert!(binary(BinaryOp::Atan2, number(1), var("x")).eval(&service).is_none());
    assert!(node(ExprKind::Rootn(Box::new(var("x")), 2)).eval(&service).is_none());
    assert!(var("t").eval(&service).is_none());
}

#[test]
fn what_follows_a_non_constant_operand_is_not_reached() {
    // The right operand is never evaluated, whatever it is.
    let power = node(ExprKind::Pown(Box::new(number(2)), 2));
    assert!(binary(BinaryOp::Add, var("x"), power).eval(&service).is_none());
    let rewritten = unary(UnaryOp::Recip, number(2));
    assert!(binary(BinaryOp::Atan2, var("y"), rewritten).eval(&service).is_none());
    // Nor is what stands below an operator that yields no scalar.
    let power = node(ExprKind::Pown(Box::new(number(2)), 2));
    assert!(binary(BinaryOp::Lt, power, number(1)).eval(&service).is_none());
    // Nor the rank behind a list with an element that is not constant.
    let list = node(ExprKind::List(vec![var("x")]));
    let power = node(ExprKind::Pown(Box::new(number(2)), 2));
    assert!(binary(BinaryOp::RankedMin, list, power).eval(&service).is_none());
}

#[test]
fn what_is_no_scalar_is_not_constant() {
    // A bare list.
    assert!(node(ExprKind::List(vec![number(1), number(2)])).eval(&service).is_none());
    // Comparisons and connectives.
    assert!(binary(BinaryOp::Eq, number(1), number(1)).eval(&service).is_none());
    assert!(binary(BinaryOp::Lt, number(1), number(2)).eval(&service).is_none());
    let t = || binary(BinaryOp::Le, number(1), number(2));
    assert!(binary(BinaryOp::And, t(), t()).eval(&service).is_none());
    assert!(unary(UnaryOp::Not, t()).eval(&service).is_none());
    assert!(binary(BinaryOp::Add, t(), number(1)).eval(&service).is_none());
}

#[test]
fn steps_of_an_exact_operator() {
    let op = Operation::Binary(BinaryOp::Add);
    let third = (tightest(1, 3), Some(rational(1, 3)));
    let exact = vec![third.clone(), third.clone()];
    // First the exact result is asked for.
    match next_exact(op, &exact, &vec![]) {
        Step::Ask(Request::Exact(asked, qs)) => {
            assert_eq!(asked, op);
            assert_eq!(qs.len(), 2);
            assert!(qs[0].same(&rational(1, 3)) && qs[1].same(&rational(1, 3)));
        },
        other => panic!("{:?}", other),
    }
    // Then its tightest enclosure.
    let found = Reply::Exact(Some(rational(2, 3)));
    match next_exact(op, &exact, &vec![found.clone()]) {
        Step::Ask(Request::Enclose(q)) => assert!(q.same(&rational(2, 3))),
        other => panic!("{:?}", other),
    }
    match next_exact(op, &exact, &vec![found.clone(), Reply::Enclosure(tightest(2, 3))]) {
        Step::Done((e, q)) => {
            assert_eq!(e, tightest(2, 3));
            assert!(same(&q, 2, 3));
        },
        other => panic!("{:?}", other),
    }
    // Without an exact result the enclosures are combined.
    match next_exact(op, &exact, &vec![Reply::Exact(None)]) {
        Step::Ask(Request::Apply(asked, es)) => {
            assert_eq!(asked, op);
            assert_eq!(es, vec![tightest(1, 3), tightest(1, 3)]);
        },
        other => panic!("{:?}", other),
    }
    match next_exact(op, &exact, &vec![Reply::Exact(None), Reply::Enclosure(enclosure(0.5, 1.0))]) {
        Step::Done((e, q)) => {
            assert_eq!(e, enclosure(0.5, 1.0));
            assert!(q.is_none());
        },
        other => panic!("{:?}", other),
    }
    // An operand without an exact value: the enclosures are combined at once.
    let mixed = vec![third.clone(), (enclosure(1.0, 2.0), None)];
    match next_exact(op, &mixed, &vec![]) {
        Step::Ask(Request::Apply(_, es)) => assert_eq!(es, vec![tightest(1, 3), enclosure(1.0, 2.0)]),
        other => panic!("{:?}", other),
    }
    match next_exact(op, &mixed, &vec![Reply::Enclosure(enclosure(1.25, 2.5))]) {
        Step::Done((e, q)) => {
            assert_eq!(e, enclosure(1.25, 2.5));
            assert!(q.is_none());
        },
        other => panic!("{:?}", other),
    }
    // A reply of the wrong form counts as all reals.
    match next_exact(op, &mixed, &vec![Reply::Exact(None)]) {
        Step::Done((e, q)) => {
            assert_eq!(e, Enclosure::entire());
            assert!(q.is_none());
        },
        other => panic!("{:?}", other),
    }
}

#[test]
fn steps_of_an_operator_on_enclosures() {
    let op = Operation::Unary(UnaryOp::Sqrt);
    let operands = vec![enclosure(4.0, 4.0)];
    match next_enclosure(op, &operands, true, &vec![]) {
        Step::Ask(Request::Apply(asked, es)) => {
            assert_eq!(asked, op);
            assert_eq!(es, operands);
        },
        other => panic!("{:?}", other),
    }
    let root = Reply::Enclosure(enclosure(2.0, 2.0));
    match next_enclosure(op, &operands, true, &vec![root.clone()]) {
        Step::Ask(Request::Recover(e)) => assert_eq!(e, enclosure(2.0, 2.0)),
        other => panic!("{:?}", other),
    }
    match next_enclosure(op, &operands, true, &vec![root.clone(), Reply::Exact(Some(rational(2, 1)))]) {
        Step::Done((e, q)) => {
            assert_eq!(e, enclosure(2.0, 2.0));
            assert!(same(&q, 2, 1));
        },
        other => panic!("{:?}", other),
    }
    match next_enclosure(op, &operands, true, &vec![root.clone(), Reply::Exact(None)]) {
        Step::Done((e, q)) => {
            assert_eq!(e, enclosure(2.0, 2.0));
            assert!(q.is_none());
        },
        other => panic!("{:?}", other),
    }
    // A ranked operator recovers no exact value.
    match next_enclosure(Operation::Binary(BinaryOp::RankedMin), &operands, false, &vec![root]) {
        Step::Done((e, q)) => {
            assert_eq!(e, enclosure(2.0, 2.0));
            assert!(q.is_none());
        },
        other => panic!("{:?}", other),
    }
}

#[test]
fn operators_are_applied_through_the_service() {
    let third = (tightest(1, 3), Some(rational(1, 3)));
    let (e, q) = apply_exact(&service, Operation::Binary(BinaryOp::Mul), vec![third.clone(), third.clone()]);
    assert!(same(&q, 1, 9));
    assert_eq!(e, tightest(1, 9));
    let (e, q) = apply_enclosure(&service, Operation::Unary(UnaryOp::Sqrt), vec![enclosure(9.0, 9.0)]);
    assert_eq!(e, enclosure(3.0, 3.0));
    assert!(same(&q, 3, 1));
    let operands = vec![enclosure(1.0, 2.0), enclosure(5.0, 6.0)];
    let (e, q) = apply_ranked(&service, Operation::Binary(BinaryOp::RankedMax), operands);
    assert_eq!(e, enclosure(1.0, 6.0));
    assert!(q.is_none());
}

#[test]
fn operators_are_classified() {
    for op in [UnaryOp::Abs, UnaryOp::Ceil, UnaryOp::Floor, UnaryOp::Neg, UnaryOp::Sqr] {
        assert_eq!(op.track(), Track::Exact);
    }
    for op in [UnaryOp::Exp10, UnaryOp::Exp2, UnaryOp::Recip] {
        assert_eq!(op.track(), Track::Rewritten);
    }
    assert_eq!(UnaryOp::Not.track(), Track::NotScalar);
    for op in [UnaryOp::Sin, UnaryOp::Gamma, UnaryOp::AiryBi, UnaryOp::Erf, UnaryOp::Sqrt, UnaryOp::One] {
        assert_eq!(op.track(), Track::Enclosure);
    }
    for op in [
        BinaryOp::Add,
        BinaryOp::Sub,
        BinaryOp::Mul,
        BinaryOp::Div,
        BinaryOp::Gcd,
        BinaryOp::Lcm,
        BinaryOp::Max,
        BinaryOp::Min,
        BinaryOp::Mod,
        BinaryOp::Pow,
    ] {
        assert_eq!(op.track(), Track::Exact);
    }
    for op in [BinaryOp::Atan2, BinaryOp::BesselJ, BinaryOp::GammaInc, BinaryOp::Log] {
        assert_eq!(op.track(), Track::Enclosure);
    }
    assert_eq!(BinaryOp::RankedMax.track(), Track::Ranked);
    assert_eq!(BinaryOp::RankedMin.track(), Track::Ranked);
    for op in [BinaryOp::Eq, BinaryOp::And, BinaryOp::Or, BinaryOp::Nlt] {
        assert_eq!(op.track(), Track::NotScalar);
    }
}
