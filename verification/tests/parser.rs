use relation_core::ast::{Expr, ExprKind, ValueType, VarSet};
use relation_core::interval::{Decoration, Enclosure, Interval};
use relation_core::lex::to_chars;
use relation_core::parse::{convert_error, parse};
use relation_core::rational::Rational;
use relation_core::rel::{Rel, RelKind, RelOp};
use relation_core::service::{NamedConstant, Reply, Request};

fn enclosure(a: f64, b: f64) -> Enclosure {
    Enclosure { interval: Interval::new(a.to_bits(), b.to_bits()).unwrap(), decoration: Decoration::Com }
}

// A numeric service for literals: the nearest binary64 number and its
// neighbours, and the exact value of a literal without a point.
fn service(request: Request) -> Reply {
    match request {
        Request::Literal(text) => {
            let x: f64 = text.parse().unwrap();
            let exact = text.parse::<u64>().ok().map(|n| Rational::from_parts(false, n, 1));
            if exact.is_some() {
                Reply::Constant(enclosure(x, x), exact)
            } else {
                Reply::Constant(enclosure(f64::from_bits(x.to_bits() - 1), f64::from_bits(x.to_bits() + 1)), None)
            }
        },
        Request::Named(NamedConstant::Pi) => {
            Reply::Constant(enclosure(3.141592653589793, 3.1415926535897936), None)
        },
        Request::Named(NamedConstant::E) => Reply::Constant(enclosure(2.718281828459045, 2.7182818284590455), None),
        Request::Apply(_, _) | Request::Enclose(_) => Reply::Enclosure(Enclosure::entire()),
        Request::Exact(_, _) | Request::Recover(_) => Reply::Exact(None),
    }
}

fn dump(rel: &Rel) -> String {
    match &rel.kind {
        RelKind::Atomic(op, x, y) => format!("({:?} {} {})", op, x.dump_structure(), y.dump_structure()),
        RelKind::And(x, y) => format!("(And {} {})", dump(x), dump(y)),
        RelKind::Or(x, y) => format!("(Or {} {})", dump(x), dump(y)),
    }
}

fn parsed(text: &str) -> String {
    match parse(text, &service) {
        Ok(rel) => dump(&rel),
        Err(message) => panic!("{} does not parse: {}", text, message),
    }
}

/// The structure of the left side of `text == 0`.
fn expression(text: &str) -> String {
    let input = format!("{} == 0", text);
    match parse(&input, &service).unwrap().kind {
        RelKind::Atomic(RelOp::Eq, x, _) => x.dump_structure(),
        _ => panic!("not a comparison"),
    }
}

fn failure(text: &str) -> String {
    match parse(text, &service) {
        Ok(rel) => panic!("{} parses as {}", text, dump(&rel)),
        Err(message) => message,
    }
}

#[test]
fn grammar_acceptance() {
    assert_eq!(expression("2x^2"), "(Mul @ (Pow x @))");
    assert_eq!(expression("2*x^2"), "(Mul @ (Pow x @))");
    assert_eq!(expression("x^y^2"), "(Pow x (Pow y @))");
    assert_eq!(parsed("sin(x)>=0 && x<1"), "(And (Ge (Sin x) @) (Lt x @))");
    assert_eq!(failure("x +"), "at line 1:\nx +\n  ^\n\n");
}

#[test]
fn keyword_boundary() {
    assert!(parse("e2 == 1", &service).is_err());
    assert_eq!(failure("e2 == 1"), "at line 1:\ne2 == 1\n^\n\n");
    assert!(parse("ex == 1", &service).is_err());
    assert!(parse("e_ == 1", &service).is_err());
    assert!(parse("xy == 1", &service).is_err());
    assert!(parse("x2 == 1", &service).is_err());
    assert!(parse("pix == 1", &service).is_err());
    assert!(parse("sinh2(x) == 1", &service).is_err());
    assert!(parse("eé == 1", &service).is_err());
    // The name alone is the constant.
    assert_eq!(parsed("e == 1"), "(Eq @ @)");
    assert_eq!(parsed("e==1"), "(Eq @ @)");
    assert_eq!(parsed("e x == 1"), "(Eq (Mul @ x) @)");
    assert_eq!(parsed("e(x) == 1"), "(Eq (Mul @ x) @)");
    match parse("e == 1", &service).unwrap().kind {
        RelKind::Atomic(_, x, _) => match x.kind {
            ExprKind::Constant(c) => assert_eq!(c.0, enclosure(2.718281828459045, 2.7182818284590455)),
            _ => panic!("not a constant"),
        },
        _ => panic!("not a comparison"),
    }
}

#[test]
fn primary_expressions() {
    assert_eq!(expression("1"), "@");
    assert_eq!(expression("1.5"), "@");
    assert_eq!(expression("1."), "@");
    assert_eq!(expression(".5"), "@");
    assert_eq!(expression("pi"), "@");
    assert_eq!(expression("π"), "@");
    assert_eq!(expression("x"), "x");
    assert_eq!(expression("y"), "y");
    assert_eq!(expression("(x)"), "x");
    assert_eq!(expression("( x )"), "x");
    assert_eq!(expression("((x + y))"), "(Add x y)");
    assert_eq!(expression("|x|"), "(Abs x)");
    assert_eq!(expression("| x - 1 |"), "(Abs (Sub x @))");
    assert_eq!(expression("⌈x⌉"), "(Ceil x)");
    assert_eq!(expression("⌊ x / 2 ⌋"), "(Floor (Div x @))");
    assert!(parse(". == 0", &service).is_err());
    assert!(parse("() == 0", &service).is_err());
    assert!(parse("(x == 0", &service).is_err());
    assert!(parse("⌈x⌋ == 0", &service).is_err());
}

#[test]
fn literals_are_compiled_by_the_service() {
    let constant = |text: &str| -> (Enclosure, Option<Rational>) {
        match parse(&format!("{} == x", text), &service).unwrap().kind {
            RelKind::Atomic(_, x, _) => match x.kind {
                ExprKind::Constant(c) => *c,
                _ => panic!("not a constant"),
            },
            _ => panic!("not a comparison"),
        }
    };
    let (e, q) = constant("42");
    assert_eq!(e, enclosure(42.0, 42.0));
    assert!(q.unwrap().same(&Rational::from_parts(false, 42, 1)));
    let (e, q) = constant("0.1");
    assert!(q.is_none());
    assert!(f64::from_bits(e.interval.inf) < 0.1 && 0.1 < f64::from_bits(e.interval.sup));
    let (e, _) = constant("12.");
    assert!(f64::from_bits(e.interval.inf) < 12.0 && 12.0 < f64::from_bits(e.interval.sup));
    let (e, _) = constant(".25");
    assert!(f64::from_bits(e.interval.inf) < 0.25 && 0.25 < f64::from_bits(e.interval.sup));
    let (e, q) = constant("pi");
    assert_eq!(e, enclosure(3.141592653589793, 3.1415926535897936));
    assert!(q.is_none());
}

#[test]
fn functions() {
    for (name, dumped) in [
        ("acosh", "Acosh"),
        ("asinh", "Asinh"),
        ("atanh", "Atanh"),
        ("floor", "Floor"),
        ("log10", "Log10"),
        ("acos", "Acos"),
        ("asin", "Asin"),
        ("atan", "Atan"),
        ("ceil", "Ceil"),
        ("cosh", "Cosh"),
        ("log2", "Log2"),
        ("sign", "Sign"),
        ("sinh", "Sinh"),
        ("sqrt", "Sqrt"),
        ("tanh", "Tanh"),
        ("cos", "Cos"),
        ("exp", "Exp"),
        ("log", "Ln"),
        ("sin", "Sin"),
        ("tan", "Tan"),
    ] {
        assert_eq!(expression(&format!("{}(x)", name)), format!("({} x)", dumped));
        assert_eq!(expression(&format!("{} ( x )", name)), format!("({} x)", dumped));
        assert!(parse(&format!("{} x == 0", name), &service).is_err());
    }
    for (name, dumped) in [("atan2", "Atan2"), ("max", "Max"), ("min", "Min"), ("mod", "Mod")] {
        assert_eq!(expression(&format!("{}(x,y)", name)), format!("({} x y)", dumped));
        assert_eq!(expression(&format!("{} ( x , y )", name)), format!("({} x y)", dumped));
        assert!(parse(&format!("{}(x) == 0", name), &service).is_err());
    }
    assert_eq!(expression("sin(cos(x) + 1)"), "(Sin (Add (Cos x) @))");
    assert_eq!(expression("max(x, min(y, 1))"), "(Max x (Min y @))");
    assert!(parse("sin(x, y) == 0", &service).is_err());
    assert!(parse("foo(x) == 0", &service).is_err());
}

#[test]
fn precedence() {
    assert_eq!(expression("x + y * 2"), "(Add x (Mul y @))");
    assert_eq!(expression("x * y + 2"), "(Add (Mul x y) @)");
    assert_eq!(expression("x - y - 1"), "(Sub (Sub x y) @)");
    assert_eq!(expression("x / y * 2"), "(Mul (Div x y) @)");
    assert_eq!(expression("x / y / 2"), "(Div (Div x y) @)");
    assert_eq!(expression("-x^2"), "(Neg (Pow x @))");
    assert_eq!(expression("2^-x"), "(Pow @ (Neg x))");
    assert_eq!(expression("x^-y^2"), "(Pow x (Neg (Pow y @)))");
    assert_eq!(expression("--x"), "(Neg (Neg x))");
    assert_eq!(expression("- - x"), "(Neg (Neg x))");
    assert_eq!(expression("x - -y"), "(Sub x (Neg y))");
    assert_eq!(expression("x * -y"), "(Mul x (Neg y))");
    assert_eq!(expression("(x + y) * 2"), "(Mul (Add x y) @)");
    assert_eq!(expression("x ^ 2 ^ y ^ 3"), "(Pow x (Pow @ (Pow y @)))");
    assert_eq!(expression("x^2 + y^2"), "(Add (Pow x @) (Pow y @))");
}

#[test]
fn implicit_multiplication() {
    assert_eq!(expression("2x"), "(Mul @ x)");
    assert_eq!(expression("2 x"), "(Mul @ x)");
    assert_eq!(expression("x y"), "(Mul x y)");
    assert_eq!(expression("2 sin(x)"), "(Mul @ (Sin x))");
    assert_eq!(expression("2sin(x)cos(y)"), "(Mul (Mul @ (Sin x)) (Cos y))");
    assert_eq!(expression("2(x + 1)"), "(Mul @ (Add x @))");
    assert_eq!(expression("(x + 1)(y + 1)"), "(Mul (Add x @) (Add y @))");
    assert_eq!(expression("2x^2y"), "(Mul (Mul @ (Pow x @)) y)");
    assert_eq!(expression("x / 2y"), "(Mul (Div x @) y)");
    assert_eq!(expression("2 x - 3 y"), "(Sub (Mul @ x) (Mul @ y))");
    // A minus sign ends a product: it subtracts.
    assert_eq!(expression("2 -x"), "(Sub @ x)");
    assert_eq!(expression("2|x|"), "(Mul @ (Abs x))");
}

#[test]
fn relations() {
    assert_eq!(parsed("x == y"), "(Eq x y)");
    assert_eq!(parsed("x >= y"), "(Ge x y)");
    assert_eq!(parsed("x > y"), "(Gt x y)");
    assert_eq!(parsed("x <= y"), "(Le x y)");
    assert_eq!(parsed("x < y"), "(Lt x y)");
    assert_eq!(parsed("x<y"), "(Lt x y)");
    assert_eq!(parsed("  x  <  y  "), "(Lt x y)");
    assert_eq!(parsed("\tx<y\t"), "(Lt x y)");
    assert_eq!(parsed("x < 1 && y < 1"), "(And (Lt x @) (Lt y @))");
    assert_eq!(parsed("x < 1 || y < 1"), "(Or (Lt x @) (Lt y @))");
    // `&&` binds tighter than `||`, and both associate to the left.
    assert_eq!(parsed("x < 1 || y < 1 && x > 0"), "(Or (Lt x @) (And (Lt y @) (Gt x @)))");
    assert_eq!(parsed("x < 1 && y < 1 || x > 0"), "(Or (And (Lt x @) (Lt y @)) (Gt x @))");
    assert_eq!(parsed("x < 1 && y < 1 && x > 0"), "(And (And (Lt x @) (Lt y @)) (Gt x @))");
    assert_eq!(parsed("x < 1 || y < 1 || x > 0"), "(Or (Or (Lt x @) (Lt y @)) (Gt x @))");
    assert_eq!(parsed("(x < 1 || y < 1) && x > 0"), "(And (Or (Lt x @) (Lt y @)) (Gt x @))");
    assert_eq!(parsed("((x < 1))"), "(Lt x @)");
    assert_eq!(parsed("(x + 1) > 0"), "(Gt (Add x @) @)");
    assert_eq!(parsed("(x + 1)(y) > (0)"), "(Gt (Mul (Add x @) y) @)");
    assert!(parse("x", &service).is_err());
    assert!(parse("x = y", &service).is_err());
    assert!(parse("x != y", &service).is_err());
    assert!(parse("x < y < 1", &service).is_err());
    assert!(parse("x < y &&", &service).is_err());
    assert!(parse("x < y & y < 1", &service).is_err());
    assert!(parse("", &service).is_err());
    assert!(parse("\nx < y", &service).is_err());
}

#[test]
fn relations_are_copied() {
    let rel = parse("x < 1 || y < 1 && x > 0", &service).unwrap();
    let copy = rel.clone();
    assert_eq!(dump(&copy), dump(&rel));
    assert_eq!(dump(&rel.duplicate()), "(Or (Lt x @) (And (Lt y @) (Gt x @)))");
    let fresh = Rel::new(RelKind::And(Box::new(rel), Box::new(copy)));
    assert_eq!(dump(&fresh), "(And (Or (Lt x @) (And (Lt y @) (Gt x @))) (Or (Lt x @) (And (Lt y @) (Gt x @))))");
}

#[test]
fn parsed_expressions_carry_their_metadata() {
    match parse("2 x + sin(y) < pi", &service).unwrap().kind {
        RelKind::Atomic(op, x, y) => {
            assert_eq!(op, RelOp::Lt);
            assert_eq!(x.ty, ValueType::Scalar);
            assert_eq!(x.vars, VarSet::both());
            assert!(x.internal_hash != 0);
            assert_eq!(y.ty, ValueType::Scalar);
            assert_eq!(y.vars, VarSet::empty());
            let mut again = Expr::new(ExprKind::Constant(Box::new((
                enclosure(3.141592653589793, 3.1415926535897936),
                None,
            ))));
            again.update_metadata();
            assert!(*y == again);
            assert_eq!(y.internal_hash, again.internal_hash);
            match x.kind {
                ExprKind::Binary(_, product, sine) => {
                    assert_eq!(product.vars, VarSet::only_x());
                    assert_eq!(sine.vars, VarSet::only_y());
                    assert_eq!(sine.ty, ValueType::Scalar);
                },
                _ => panic!("not a sum"),
            }
        },
        _ => panic!("not a comparison"),
    }
}

#[test]
fn failures_are_reported_with_line_and_column() {
    // Nothing can follow the operator.
    assert_eq!(failure("x +"), "at line 1:\nx +\n  ^\n\n");
    // An operand is missing.
    assert_eq!(failure("x == "), "at line 1:\nx ==\n     ^\n\n");
    assert_eq!(failure("x =="), "at line 1:\nx ==\n    ^\n\n");
    // A comparison is missing.
    assert_eq!(failure("x"), "at line 1:\nx\n ^\n\n");
    assert_eq!(failure("x + 1 )"), "at line 1:\nx + 1 )\n      ^\n\n");
    // Trailing input.
    assert_eq!(failure("x == 1 )"), "at line 1:\nx == 1 )\n       ^\n\n");
    assert_eq!(failure("x == 1 && "), "at line 1:\nx == 1 &&\n       ^\n\n");
    // Nothing at all.
    assert_eq!(failure(""), "at line 1:\n\n^\n\n");
    assert_eq!(failure("   "), "at line 1:\n\n   ^\n\n");
    // An unknown name.
    assert_eq!(failure("2 + foo == 1"), "at line 1:\n2 + foo == 1\n  ^\n\n");
    // A line feed is no blank: the relation has to stand on one line.
    assert_eq!(failure("x == 1\ny == 2"), "at line 1:\nx == 1\n      ^\n\n");
    assert_eq!(failure("x == 1 \n"), "at line 1:\nx == 1\n       ^\n\n");
    // The column counts bytes: π takes two.
    assert_eq!(failure("π == π ?"), "at line 1:\nπ == π ?\n         ^\n\n");
}

#[test]
fn diagnostics_name_the_line() {
    let text = "first\nsecond line  \nthird";
    let chars = to_chars(text);
    assert_eq!(convert_error(text, &chars, 0), "at line 1:\nfirst\n^\n\n");
    assert_eq!(convert_error(text, &chars, 5), "at line 1:\nfirst\n     ^\n\n");
    assert_eq!(convert_error(text, &chars, 6), "at line 2:\nsecond line\n^\n\n");
    assert_eq!(convert_error(text, &chars, 13), "at line 2:\nsecond line\n       ^\n\n");
    // White space at the end of the line is left out, the column is not moved.
    assert_eq!(convert_error(text, &chars, 18), "at line 2:\nsecond line\n            ^\n\n");
    assert_eq!(convert_error(text, &chars, 20), "at line 3:\nthird\n^\n\n");
    assert_eq!(convert_error(text, &chars, 25), "at line 3:\nthird\n     ^\n\n");
    let text = "a\r\nbc\r\n";
    let chars = to_chars(text);
    assert_eq!(convert_error(text, &chars, 4), "at line 2:\nbc\n ^\n\n");
    assert_eq!(convert_error(text, &chars, 7), "at line 3:\n\n^\n\n");
    // Characters of one to four bytes.
    let text = "aé⌈😀b";
    let chars = to_chars(text);
    assert_eq!(chars.len(), 5);
    assert_eq!(convert_error(text, &chars, 1), format!("at line 1:\n{}\n ^\n\n", text));
    assert_eq!(convert_error(text, &chars, 2), format!("at line 1:\n{}\n   ^\n\n", text));
    assert_eq!(convert_error(text, &chars, 3), format!("at line 1:\n{}\n      ^\n\n", text));
    assert_eq!(convert_error(text, &chars, 4), format!("at line 1:\n{}\n          ^\n\n", text));
    // Ten lines and more.
    let text = "\n\n\n\n\n\n\n\n\n\n\nx";
    let chars = to_chars(text);
    assert_eq!(convert_error(text, &chars, 11), "at line 12:\nx\n^\n\n");
}
