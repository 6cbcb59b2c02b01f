//! The grammar of expressions: primary expressions, function application,
//! right-associative powers, unary minus, products with and without a sign of
//! multiplication, and sums.
//!
//! Each rule is a function of the text and a position; the parser computes
//! that function.

use crate::ast::{Expr, ExprKind, ExprModel};
use crate::lex::{at, blanks, decimal_literal, decimal_literal_spec, keyword, keyword_spec, skip_blanks};
use crate::ops::{BinaryOp, UnaryOp};
use crate::service::{answer, ask, serves, NamedConstant, Reply, ReplyModel, Request, RequestModel};
use vstd::prelude::*;
use vstd::string::*;

verus! {

/// The outcome of parsing an expression at a position: the structure and the
/// position behind it, or the position at which parsing fails.
pub type ExprOutcome = Result<(ExprModel, int), int>;

/// The constant node that the numeric service `sv` makes of a literal or a
/// named constant.
pub open spec fn constant_of<S: Fn(Request) -> Reply>(sv: S, q: RequestModel) -> ExprModel {
    match answer(sv, q) {
        ReplyModel::Constant(e, r) => ExprModel::Constant(e, r),
        _ => ExprModel::Uninit,
    }
}

/// The function of one argument whose name stands at `pos`, and the position
/// behind the name.
pub open spec fn fn1_spec(s: Seq<char>, pos: int) -> Option<(UnaryOp, int)> {
    if keyword_spec(s, pos, "acosh"@) is Ok {
        Some((UnaryOp::Acosh, keyword_spec(s, pos, "acosh"@)->Ok_0))
    } else if keyword_spec(s, pos, "asinh"@) is Ok {
        Some((UnaryOp::Asinh, keyword_spec(s, pos, "asinh"@)->Ok_0))
    } else if keyword_spec(s, pos, "atanh"@) is Ok {
        Some((UnaryOp::Atanh, keyword_spec(s, pos, "atanh"@)->Ok_0))
    } else if keyword_spec(s, pos, "floor"@) is Ok {
        Some((UnaryOp::Floor, keyword_spec(s, pos, "floor"@)->Ok_0))
    } else if keyword_spec(s, pos, "log10"@) is Ok {
        Some((UnaryOp::Log10, keyword_spec(s, pos, "log10"@)->Ok_0))
    } else if keyword_spec(s, pos, "acos"@) is Ok {
        Some((UnaryOp::Acos, keyword_spec(s, pos, "acos"@)->Ok_0))
    } else if keyword_spec(s, pos, "asin"@) is Ok {
        Some((UnaryOp::Asin, keyword_spec(s, pos, "asin"@)->Ok_0))
    } else if keyword_spec(s, pos, "atan"@) is Ok {
        Some((UnaryOp::Atan, keyword_spec(s, pos, "atan"@)->Ok_0))
    } else if keyword_spec(s, pos, "ceil"@) is Ok {
        Some((UnaryOp::Ceil, keyword_spec(s, pos, "ceil"@)->Ok_0))
    } else if keyword_spec(s, pos, "cosh"@) is Ok {
        Some((UnaryOp::Cosh, keyword_spec(s, pos, "cosh"@)->Ok_0))
    } else if keyword_spec(s, pos, "log2"@) is Ok {
        Some((UnaryOp::Log2, keyword_spec(s, pos, "log2"@)->Ok_0))
    } else if keyword_spec(s, pos, "sign"@) is Ok {
        Some((UnaryOp::Sign, keyword_spec(s, pos, "sign"@)->Ok_0))
    } else if keyword_spec(s, pos, "sinh"@) is Ok {
        Some((UnaryOp::Sinh, keyword_spec(s, pos, "sinh"@)->Ok_0))
    } else if keyword_spec(s, pos, "sqrt"@) is Ok {
        Some((UnaryOp::Sqrt, keyword_spec(s, pos, "sqrt"@)->Ok_0))
    } else if keyword_spec(s, pos, "tanh"@) is Ok {
        Some((UnaryOp::Tanh, keyword_spec(s, pos, "tanh"@)->Ok_0))
    } else if keyword_spec(s, pos, "cos"@) is Ok {
        Some((UnaryOp::Cos, keyword_spec(s, pos, "cos"@)->Ok_0))
    } else if keyword_spec(s, pos, "exp"@) is Ok {
        Some((UnaryOp::Exp, keyword_spec(s, pos, "exp"@)->Ok_0))
    } else if keyword_spec(s, pos, "log"@) is Ok {
        Some((UnaryOp::Ln, keyword_spec(s, pos, "log"@)->Ok_0))
    } else if keyword_spec(s, pos, "sin"@) is Ok {
        Some((UnaryOp::Sin, keyword_spec(s, pos, "sin"@)->Ok_0))
    } else if keyword_spec(s, pos, "tan"@) is Ok {
        Some((UnaryOp::Tan, keyword_spec(s, pos, "tan"@)->Ok_0))
    } else {
        None
    }
}

/// The function of two arguments whose name stands at `pos`, and the position
/// behind the name.
pub open spec fn fn2_spec(s: Seq<char>, pos: int) -> Option<(BinaryOp, int)> {
    if keyword_spec(s, pos, "atan2"@) is Ok {
        Some((BinaryOp::Atan2, keyword_spec(s, pos, "atan2"@)->Ok_0))
    } else if keyword_spec(s, pos, "max"@) is Ok {
        Some((BinaryOp::Max, keyword_spec(s, pos, "max"@)->Ok_0))
    } else if keyword_spec(s, pos, "min"@) is Ok {
        Some((BinaryOp::Min, keyword_spec(s, pos, "min"@)->Ok_0))
    } else if keyword_spec(s, pos, "mod"@) is Ok {
        Some((BinaryOp::Mod, keyword_spec(s, pos, "mod"@)->Ok_0))
    } else {
        None
    }
}

/// What follows an opening bracket at `pos`: blanks, an expression, blanks and
/// the closing bracket `close`.
pub open spec fn bracket_body_spec<S: Fn(Request) -> Reply>(s: Seq<char>, pos: int, close: char, sv: S) -> ExprOutcome
    decreases s.len() - pos, 0int,
{
    let c1 = skip_blanks(s, pos + 1);
    if 0 <= pos < c1 <= s.len() {
        match additive_expr_spec(s, c1, sv) {
            Err(e) => Err(e),
            Ok((x, n)) => {
                let c2 = skip_blanks(s, n);
                if 0 <= c2 < s.len() && s[c2] == close {
                    Ok((x, c2 + 1))
                } else {
                    Err(c2)
                }
            },
        }
    } else {
        Err(pos)
    }
}

/// What follows an opening parenthesis at `pos`: two expressions with a comma
/// between them and the closing parenthesis, with blanks between all of them.
pub open spec fn pair_body_spec<S: Fn(Request) -> Reply>(s: Seq<char>, pos: int, sv: S) -> Result<
    ((ExprModel, ExprModel), int),
    int,
>
    decreases s.len() - pos, 0int,
{
    let c1 = skip_blanks(s, pos + 1);
    if 0 <= pos < c1 <= s.len() {
        match additive_expr_spec(s, c1, sv) {
            Err(e) => Err(e),
            Ok((x, n1)) => {
                let c2 = skip_blanks(s, n1);
                if pos < c2 < s.len() && s[c2] == ',' {
                    let c3 = skip_blanks(s, c2 + 1);
                    if pos < c3 <= s.len() {
                        match additive_expr_spec(s, c3, sv) {
                            Err(e) => Err(e),
                            Ok((y, n2)) => {
                                let c4 = skip_blanks(s, n2);
                                if 0 <= c4 < s.len() && s[c4] == ')' {
                                    Ok(((x, y), c4 + 1))
                                } else {
                                    Err(c4)
                                }
                            },
                        }
                    } else {
                        Err(c3)
                    }
                } else {
                    Err(c2)
                }
            },
        }
    } else {
        Err(pos)
    }
}

/// A primary expression at `pos`: a decimal literal, `pi`, `π`, `e`, `x`, `y`,
/// a parenthesized expression, an absolute value between bars, or a ceiling
/// or floor between its brackets. Where none of them stands there, it fails
/// as the last of these alternatives fails.
pub open spec fn primary_expr_spec<S: Fn(Request) -> Reply>(s: Seq<char>, pos: int, sv: S) -> ExprOutcome
    decreases s.len() - pos, 1int,
{
    if !(0 <= pos <= s.len()) {
        Err(pos)
    } else if decimal_literal_spec(s, pos) is Ok {
        let next = decimal_literal_spec(s, pos)->Ok_0;
        Ok((constant_of(sv, RequestModel::Literal(s.subrange(pos, next))), next))
    } else if keyword_spec(s, pos, "pi"@) is Ok {
        Ok((constant_of(sv, RequestModel::Named(NamedConstant::Pi)), keyword_spec(s, pos, "pi"@)->Ok_0))
    } else if keyword_spec(s, pos, "π"@) is Ok {
        Ok((constant_of(sv, RequestModel::Named(NamedConstant::Pi)), keyword_spec(s, pos, "π"@)->Ok_0))
    } else if keyword_spec(s, pos, "e"@) is Ok {
        Ok((constant_of(sv, RequestModel::Named(NamedConstant::E)), keyword_spec(s, pos, "e"@)->Ok_0))
    } else if keyword_spec(s, pos, "x"@) is Ok {
        Ok((ExprModel::Var("x"@), keyword_spec(s, pos, "x"@)->Ok_0))
    } else if keyword_spec(s, pos, "y"@) is Ok {
        Ok((ExprModel::Var("y"@), keyword_spec(s, pos, "y"@)->Ok_0))
    } else if pos < s.len() && s[pos] == '(' && bracket_body_spec(s, pos, ')', sv) is Ok {
        bracket_body_spec(s, pos, ')', sv)
    } else if pos < s.len() && s[pos] == '|' && bracket_body_spec(s, pos, '|', sv) is Ok {
        let (x, n) = bracket_body_spec(s, pos, '|', sv)->Ok_0;
        Ok((ExprModel::Unary(UnaryOp::Abs, Box::new(x)), n))
    } else if pos < s.len() && s[pos] == '⌈' && bracket_body_spec(s, pos, '⌉', sv) is Ok {
        let (x, n) = bracket_body_spec(s, pos, '⌉', sv)->Ok_0;
        Ok((ExprModel::Unary(UnaryOp::Ceil, Box::new(x)), n))
    } else if pos < s.len() && s[pos] == '⌊' {
        match bracket_body_spec(s, pos, '⌋', sv) {
            Ok((x, n)) => Ok((ExprModel::Unary(UnaryOp::Floor, Box::new(x)), n)),
            Err(e) => Err(e),
        }
    } else {
        Err(pos)
    }
}

/// The application of a function of one argument at `pos`, where one stands
/// there: the name, blanks and the argument in parentheses.
pub open spec fn application1_spec<S: Fn(Request) -> Reply>(s: Seq<char>, pos: int, sv: S) -> Option<
    (ExprModel, int),
>
    decreases s.len() - pos, 1int,
{
    match fn1_spec(s, pos) {
        None => None,
        Some((op, n)) => {
            let p = skip_blanks(s, n);
            if 0 <= pos <= p < s.len() && s[p] == '(' {
                match bracket_body_spec(s, p, ')', sv) {
                    Ok((x, next)) => Some((ExprModel::Unary(op, Box::new(x)), next)),
                    Err(_) => None,
                }
            } else {
                None
            }
        },
    }
}

/// The application of a function of two arguments at `pos`, where one stands
/// there: the name, blanks and the two arguments in parentheses.
pub open spec fn application2_spec<S: Fn(Request) -> Reply>(s: Seq<char>, pos: int, sv: S) -> Option<
    (ExprModel, int),
>
    decreases s.len() - pos, 1int,
{
    match fn2_spec(s, pos) {
        None => None,
        Some((op, n)) => {
            let p = skip_blanks(s, n);
            if 0 <= pos <= p < s.len() && s[p] == '(' {
                match pair_body_spec(s, p, sv) {
                    Ok(((x, y), next)) => Some((ExprModel::Binary(op, Box::new(x), Box::new(y)), next)),
                    Err(_) => None,
                }
            } else {
                None
            }
        },
    }
}

/// A postfix expression at `pos`: the application of a named function, or a
/// primary expression.
pub open spec fn postfix_expr_spec<S: Fn(Request) -> Reply>(s: Seq<char>, pos: int, sv: S) -> ExprOutcome
    decreases s.len() - pos, 2int,
{
    if application1_spec(s, pos, sv) is Some {
        Ok(application1_spec(s, pos, sv)->Some_0)
    } else if application2_spec(s, pos, sv) is Some {
        Ok(application2_spec(s, pos, sv)->Some_0)
    } else {
        primary_expr_spec(s, pos, sv)
    }
}

/// A power at `pos`: a postfix expression, optionally followed by `^` and a
/// unary expression as exponent, so that `^` associates to the right.
pub open spec fn power_expr_spec<S: Fn(Request) -> Reply>(s: Seq<char>, pos: int, sv: S) -> ExprOutcome
    decreases s.len() - pos, 3int,
{
    match postfix_expr_spec(s, pos, sv) {
        Err(e) => Err(e),
        Ok((x, n)) => {
            let p = skip_blanks(s, n);
            let c1 = skip_blanks(s, p + 1);
            if 0 <= pos < p < s.len() && s[p] == '^' && pos < c1 <= s.len() {
                match unary_expr_spec(s, c1, sv) {
                    Ok((y, next)) => Ok((ExprModel::Binary(BinaryOp::Pow, Box::new(x), Box::new(y)), next)),
                    Err(_) => Ok((x, n)),
                }
            } else {
                Ok((x, n))
            }
        },
    }
}

/// A unary expression at `pos`: a minus sign before a unary expression, or a
/// power.
pub open spec fn unary_expr_spec<S: Fn(Request) -> Reply>(s: Seq<char>, pos: int, sv: S) -> ExprOutcome
    decreases s.len() - pos, 4int,
{
    let c1 = skip_blanks(s, pos + 1);
    if 0 <= pos < s.len() && s[pos] == '-' && pos < c1 <= s.len() && unary_expr_spec(s, c1, sv) is Ok {
        let (x, n) = unary_expr_spec(s, c1, sv)->Ok_0;
        Ok((ExprModel::Unary(UnaryOp::Neg, Box::new(x)), n))
    } else {
        power_expr_spec(s, pos, sv)
    }
}

/// One further factor at `pos`: blanks, `*` or `/`, blanks and a unary
/// expression; or blanks and a power, which multiplies by juxtaposition.
pub open spec fn factor_spec<S: Fn(Request) -> Reply>(s: Seq<char>, pos: int, sv: S) -> Result<
    ((BinaryOp, ExprModel), int),
    int,
>
    decreases s.len() - pos, 5int,
{
    let c1 = skip_blanks(s, pos);
    let c2 = skip_blanks(s, c1 + 1);
    if 0 <= pos <= c1 < s.len() && (s[c1] == '*' || s[c1] == '/') && pos < c2 <= s.len() && unary_expr_spec(
        s,
        c2,
        sv,
    ) is Ok {
        let (y, n) = unary_expr_spec(s, c2, sv)->Ok_0;
        Ok(((if s[c1] == '*' { BinaryOp::Mul } else { BinaryOp::Div }, y), n))
    } else if 0 <= pos <= c1 <= s.len() {
        match power_expr_spec(s, c1, sv) {
            Ok((y, n)) => Ok(((BinaryOp::Mul, y), n)),
            Err(e) => Err(e),
        }
    } else {
        Err(pos)
    }
}

/// The product that starts with `acc` and goes on at `pos` with as many
/// further factors as stand there, associated to the left.
pub open spec fn factors<S: Fn(Request) -> Reply>(s: Seq<char>, pos: int, acc: ExprModel, sv: S) -> (
    ExprModel,
    int,
)
    decreases s.len() - pos, 6int,
{
    match factor_spec(s, pos, sv) {
        Ok(((op, y), n)) => if 0 <= pos < n <= s.len() {
            factors(s, n, ExprModel::Binary(op, Box::new(acc), Box::new(y)), sv)
        } else {
            (acc, pos)
        },
        Err(_) => (acc, pos),
    }
}

/// A product at `pos`: a unary expression and the factors that follow it.
pub open spec fn multiplicative_expr_spec<S: Fn(Request) -> Reply>(s: Seq<char>, pos: int, sv: S) -> ExprOutcome
    decreases s.len() - pos, 7int,
{
    match unary_expr_spec(s, pos, sv) {
        Err(e) => Err(e),
        Ok((x, n)) => if 0 <= pos < n <= s.len() {
            Ok(factors(s, n, x, sv))
        } else {
            Ok((x, n))
        },
    }
}

/// One further term at `pos`: blanks, `+` or `-`, blanks and a product.
pub open spec fn term_spec<S: Fn(Request) -> Reply>(s: Seq<char>, pos: int, sv: S) -> Result<
    ((BinaryOp, ExprModel), int),
    int,
>
    decreases s.len() - pos, 8int,
{
    let c1 = skip_blanks(s, pos);
    let c2 = skip_blanks(s, c1 + 1);
    if 0 <= pos <= c1 < s.len() && (s[c1] == '+' || s[c1] == '-') && pos < c2 <= s.len() {
        match multiplicative_expr_spec(s, c2, sv) {
            Ok((y, n)) => Ok(((if s[c1] == '+' { BinaryOp::Add } else { BinaryOp::Sub }, y), n)),
            Err(e) => Err(e),
        }
    } else {
        Err(c1)
    }
}

/// The sum that starts with `acc` and goes on at `pos` with as many further
/// terms as stand there, associated to the left.
pub open spec fn terms<S: Fn(Request) -> Reply>(s: Seq<char>, pos: int, acc: ExprModel, sv: S) -> (
    ExprModel,
    int,
)
    decreases s.len() - pos, 9int,
{
    match term_spec(s, pos, sv) {
        Ok(((op, y), n)) => if 0 <= pos < n <= s.len() {
            terms(s, n, ExprModel::Binary(op, Box::new(acc), Box::new(y)), sv)
        } else {
            (acc, pos)
        },
        Err(_) => (acc, pos),
    }
}

/// An expression at `pos`: a product and the terms that follow it.
pub open spec fn additive_expr_spec<S: Fn(Request) -> Reply>(s: Seq<char>, pos: int, sv: S) -> ExprOutcome
    decreases s.len() - pos, 10int,
{
    match multiplicative_expr_spec(s, pos, sv) {
        Err(e) => Err(e),
        Ok((x, n)) => if 0 <= pos < n <= s.len() {
            Ok(terms(s, n, x, sv))
        } else {
            Ok((x, n))
        },
    }
}

/// Matches the name of a function of one argument.
pub fn fn1(s: &Vec<char>, pos: usize) -> (r: Option<(UnaryOp, usize)>)
    requires
        pos <= s.len(),
    ensures
        match fn1_spec(s@, pos as int) {
            Some((op, n)) => r == Some((op, n as usize)) && pos <= n <= s.len(),
            None => r is None,
        },
{
    if let Ok(next) = keyword(s, pos, "acosh") {
        return Some((UnaryOp::Acosh, next));
    }
    if let Ok(next) = keyword(s, pos, "asinh") {
        return Some((UnaryOp::Asinh, next));
    }
    if let Ok(next) = keyword(s, pos, "atanh") {
        return Some((UnaryOp::Atanh, next));
    }
    if let Ok(next) = keyword(s, pos, "floor") {
        return Some((UnaryOp::Floor, next));
    }
    if let Ok(next) = keyword(s, pos, "log10") {
        return Some((UnaryOp::Log10, next));
    }
    if let Ok(next) = keyword(s, pos, "acos") {
        return Some((UnaryOp::Acos, next));
    }
    if let Ok(next) = keyword(s, pos, "asin") {
        return Some((UnaryOp::Asin, next));
    }
    if let Ok(next) = keyword(s, pos, "atan") {
        return Some((UnaryOp::Atan, next));
    }
    if let Ok(next) = keyword(s, pos, "ceil") {
        return Some((UnaryOp::Ceil, next));
    }
    if let Ok(next) = keyword(s, pos, "cosh") {
        return Some((UnaryOp::Cosh, next));
    }
    if let Ok(next) = keyword(s, pos, "log2") {
        return Some((UnaryOp::Log2, next));
    }
    if let Ok(next) = keyword(s, pos, "sign") {
        return Some((UnaryOp::Sign, next));
    }
    if let Ok(next) = keyword(s, pos, "sinh") {
        return Some((UnaryOp::Sinh, next));
    }
    if let Ok(next) = keyword(s, pos, "sqrt") {
        return Some((UnaryOp::Sqrt, next));
    }
    if let Ok(next) = keyword(s, pos, "tanh") {
        return Some((UnaryOp::Tanh, next));
    }
    if let Ok(next) = keyword(s, pos, "cos") {
        return Some((UnaryOp::Cos, next));
    }
    if let Ok(next) = keyword(s, pos, "exp") {
        return Some((UnaryOp::Exp, next));
    }
    if let Ok(next) = keyword(s, pos, "log") {
        return Some((UnaryOp::Ln, next));
    }
    if let Ok(next) = keyword(s, pos, "sin") {
        return Some((UnaryOp::Sin, next));
    }
    if let Ok(next) = keyword(s, pos, "tan") {
        return Some((UnaryOp::Tan, next));
    }
    None
}

/// Matches the name of a function of two arguments.
pub fn fn2(s: &Vec<char>, pos: usize) -> (r: Option<(BinaryOp, usize)>)
    requires
        pos <= s.len(),
    ensures
        match fn2_spec(s@, pos as int) {
            Some((op, n)) => r == Some((op, n as usize)) && pos <= n <= s.len(),
            None => r is None,
        },
{
    if let Ok(next) = keyword(s, pos, "atan2") {
        return Some((BinaryOp::Atan2, next));
    }
    if let Ok(next) = keyword(s, pos, "max") {
        return Some((BinaryOp::Max, next));
    }
    if let Ok(next) = keyword(s, pos, "min") {
        return Some((BinaryOp::Min, next));
    }
    if let Ok(next) = keyword(s, pos, "mod") {
        return Some((BinaryOp::Mod, next));
    }
    None
}

/// Whether the result `r` of parsing at `pos` in a text of length `len` is the
/// outcome `m`: on success the same structure, with correct metadata, and the
/// same position, which lies behind `pos`; on failure the same position.
pub open spec fn produces(r: Result<(Expr, usize), usize>, m: ExprOutcome, pos: int, len: int) -> bool {
    match m {
        Ok((x, n)) => r is Ok && r->Ok_0.0@ == x && r->Ok_0.0.annotated() && r->Ok_0.1 == n && pos < n
            <= len,
        Err(e) => r is Err && r->Err_0 == e && pos <= e <= len,
    }
}

/// Whether the result `r` of parsing one further operand at `pos` is the
/// outcome `m`.
pub open spec fn produces_operand(
    r: Result<((BinaryOp, Expr), usize), usize>,
    m: Result<((BinaryOp, ExprModel), int), int>,
    pos: int,
    len: int,
) -> bool {
    match m {
        Ok(((op, y), n)) => r is Ok && r->Ok_0.0.0 == op && r->Ok_0.0.1@ == y && r->Ok_0.0.1.annotated()
            && r->Ok_0.1 == n && pos < n <= len,
        Err(e) => r is Err && r->Err_0 == e,
    }
}

/// A node of the given kind with its metadata computed.
pub fn node(kind: ExprKind) -> (r: Expr)
    requires
        !(kind is Uninit),
        Expr::new_spec(kind).children_annotated(),
    ensures
        r.kind == kind,
        r.annotated(),
{
    let mut e = Expr::new(kind);
    e.update_metadata();
    e
}

/// The constant node that a reply of the numeric service holds.
pub fn constant_node(reply: Reply) -> (r: Expr)
    requires
        reply is Constant,
    ensures
        r@ == (ExprModel::Constant(reply@->Constant_0, reply@->Constant_1)),
        r.annotated(),
{
    match reply {
        Reply::Constant(e, q) => node(ExprKind::Constant(Box::new((e, q)))),
        _ => node(ExprKind::Constant(Box::new((crate::interval::Enclosure::entire(), None)))),
    }
}

/// Parses what follows an opening bracket at `pos`.
pub fn bracket_body<S: Fn(Request) -> Reply>(
    text: &str,
    s: &Vec<char>,
    pos: usize,
    close: char,
    service: &S,
) -> (r: Result<(Expr, usize), usize>)
    requires
        s@ == text@,
        pos < s.len(),
        serves(*service),
    ensures
        produces(r, bracket_body_spec(s@, pos as int, close, *service), pos as int, s.len() as int),
    decreases s.len() - pos, 0int,
{
    let c1 = blanks(s, pos + 1);
    match additive_expr(text, s, c1, service) {
        Err(e) => Err(e),
        Ok((x, n)) => {
            let c2 = blanks(s, n);
            if at(s, c2, close) {
                Ok((x, c2 + 1))
            } else {
                Err(c2)
            }
        },
    }
}

/// Parses what follows the opening parenthesis at `pos` of a function of two
/// arguments.
pub fn pair_body<S: Fn(Request) -> Reply>(text: &str, s: &Vec<char>, pos: usize, service: &S) -> (r:
    Result<((Expr, Expr), usize), usize>)
    requires
        s@ == text@,
        pos < s.len(),
        serves(*service),
    ensures
        match pair_body_spec(s@, pos as int, *service) {
            Ok(((x, y), n)) => r is Ok && r->Ok_0.0.0@ == x && r->Ok_0.0.1@ == y && r->Ok_0.0.0.annotated()
                && r->Ok_0.0.1.annotated() && r->Ok_0.1 == n && pos < n <= s.len(),
            Err(e) => r is Err && r->Err_0 == e,
        },
    decreases s.len() - pos, 0int,
{
    let c1 = blanks(s, pos + 1);
    match additive_expr(text, s, c1, service) {
        Err(e) => Err(e),
        Ok((x, n1)) => {
            let c2 = blanks(s, n1);
            if at(s, c2, ',') {
                let c3 = blanks(s, c2 + 1);
                match additive_expr(text, s, c3, service) {
                    Err(e) => Err(e),
                    Ok((y, n2)) => {
                        let c4 = blanks(s, n2);
                        if at(s, c4, ')') {
                            Ok(((x, y), c4 + 1))
                        } else {
                            Err(c4)
                        }
                    },
                }
            } else {
                Err(c2)
            }
        },
    }
}

/// Parses a primary expression at `pos`.
pub fn primary_expr<S: Fn(Request) -> Reply>(text: &str, s: &Vec<char>, pos: usize, service: &S) -> (r:
    Result<(Expr, usize), usize>)
    requires
        s@ == text@,
        pos <= s.len(),
        serves(*service),
    ensures
        produces(r, primary_expr_spec(s@, pos as int, *service), pos as int, s.len() as int),
    decreases s.len() - pos, 1int,
{
    proof {
        reveal_strlit("pi");
        reveal_strlit("π");
        reveal_strlit("e");
        reveal_strlit("x");
        reveal_strlit("y");
    }
    if let Ok(next) = decimal_literal(s, pos) {
        let literal = String::from_str(text.substring_char(pos, next));
        let c = constant_node(ask(service, Request::Literal(literal)));
        return Ok((c, next));
    }
    if let Ok(next) = keyword(s, pos, "pi") {
        let c = constant_node(ask(service, Request::Named(NamedConstant::Pi)));
        return Ok((c, next));
    }
    if let Ok(next) = keyword(s, pos, "π") {
        let c = constant_node(ask(service, Request::Named(NamedConstant::Pi)));
        return Ok((c, next));
    }
    if let Ok(next) = keyword(s, pos, "e") {
        let c = constant_node(ask(service, Request::Named(NamedConstant::E)));
        return Ok((c, next));
    }
    if let Ok(next) = keyword(s, pos, "x") {
        return Ok((node(ExprKind::Var(String::from_str("x"))), next));
    }
    if let Ok(next) = keyword(s, pos, "y") {
        return Ok((node(ExprKind::Var(String::from_str("y"))), next));
    }
    if at(s, pos, '(') {
        if let Ok((x, n)) = bracket_body(text, s, pos, ')', service) {
            return Ok((x, n));
        }
    }
    if at(s, pos, '|') {
        if let Ok((x, n)) = bracket_body(text, s, pos, '|', service) {
            return Ok((node(ExprKind::Unary(UnaryOp::Abs, Box::new(x))), n));
        }
    }
    if at(s, pos, '⌈') {
        if let Ok((x, n)) = bracket_body(text, s, pos, '⌉', service) {
            return Ok((node(ExprKind::Unary(UnaryOp::Ceil, Box::new(x))), n));
        }
    }
    if at(s, pos, '⌊') {
        match bracket_body(text, s, pos, '⌋', service) {
            Ok((x, n)) => Ok((node(ExprKind::Unary(UnaryOp::Floor, Box::new(x))), n)),
            Err(e) => Err(e),
        }
    } else {
        Err(pos)
    }
}

/// Parses the application of a function of one argument at `pos`, where one
/// stands there.
pub fn application1<S: Fn(Request) -> Reply>(text: &str, s: &Vec<char>, pos: usize, service: &S) -> (r:
    Option<(Expr, usize)>)
    requires
        s@ == text@,
        pos <= s.len(),
        serves(*service),
    ensures
        match application1_spec(s@, pos as int, *service) {
            Some((x, n)) => r is Some && r->Some_0.0@ == x && r->Some_0.0.annotated() && r->Some_0.1 == n
                && pos < n <= s.len(),
            None => r is None,
        },
    decreases s.len() - pos, 1int,
{
    match fn1(s, pos) {
        None => None,
        Some((op, n)) => {
            let p = blanks(s, n);
            if at(s, p, '(') {
                match bracket_body(text, s, p, ')', service) {
                    Ok((x, next)) => Some((node(ExprKind::Unary(op, Box::new(x))), next)),
                    Err(_) => None,
                }
            } else {
                None
            }
        },
    }
}

/// Parses the application of a function of two arguments at `pos`, where one
/// stands there.
pub fn application2<S: Fn(Request) -> Reply>(text: &str, s: &Vec<char>, pos: usize, service: &S) -> (r:
    Option<(Expr, usize)>)
    requires
        s@ == text@,
        pos <= s.len(),
        serves(*service),
    ensures
        match application2_spec(s@, pos as int, *service) {
            Some((x, n)) => r is Some && r->Some_0.0@ == x && r->Some_0.0.annotated() && r->Some_0.1 == n
                && pos < n <= s.len(),
            None => r is None,
        },
    decreases s.len() - pos, 1int,
{
    match fn2(s, pos) {
        None => None,
        Some((op, n)) => {
            let p = blanks(s, n);
            if at(s, p, '(') {
                match pair_body(text, s, p, service) {
                    Ok(((x, y), next)) => Some((node(ExprKind::Binary(op, Box::new(x), Box::new(y))), next)),
                    Err(_) => None,
                }
            } else {
                None
            }
        },
    }
}

/// Parses a postfix expression at `pos`.
pub fn postfix_expr<S: Fn(Request) -> Reply>(text: &str, s: &Vec<char>, pos: usize, service: &S) -> (r:
    Result<(Expr, usize), usize>)
    requires
        s@ == text@,
        pos <= s.len(),
        serves(*service),
    ensures
        produces(r, postfix_expr_spec(s@, pos as int, *service), pos as int, s.len() as int),
    decreases s.len() - pos, 2int,
{
    if let Some(found) = application1(text, s, pos, service) {
        return Ok(found);
    }
    if let Some(found) = application2(text, s, pos, service) {
        return Ok(found);
    }
    primary_expr(text, s, pos, service)
}

/// Parses a power at `pos`.
pub fn power_expr<S: Fn(Request) -> Reply>(text: &str, s: &Vec<char>, pos: usize, service: &S) -> (r:
    Result<(Expr, usize), usize>)
    requires
        s@ == text@,
        pos <= s.len(),
        serves(*service),
    ensures
        produces(r, power_expr_spec(s@, pos as int, *service), pos as int, s.len() as int),
    decreases s.len() - pos, 3int,
{
    match postfix_expr(text, s, pos, service) {
        Err(e) => Err(e),
        Ok((x, n)) => {
            let p = blanks(s, n);
            if at(s, p, '^') {
                let c1 = blanks(s, p + 1);
                match unary_expr(text, s, c1, service) {
                    Ok((y, next)) => Ok(
                        (node(ExprKind::Binary(BinaryOp::Pow, Box::new(x), Box::new(y))), next),
                    ),
                    Err(_) => Ok((x, n)),
                }
            } else {
                Ok((x, n))
            }
        },
    }
}

/// Parses a unary expression at `pos`.
pub fn unary_expr<S: Fn(Request) -> Reply>(text: &str, s: &Vec<char>, pos: usize, service: &S) -> (r:
    Result<(Expr, usize), usize>)
    requires
        s@ == text@,
        pos <= s.len(),
        serves(*service),
    ensures
        produces(r, unary_expr_spec(s@, pos as int, *service), pos as int, s.len() as int),
    decreases s.len() - pos, 4int,
{
    if at(s, pos, '-') {
        let c1 = blanks(s, pos + 1);
        if let Ok((x, n)) = unary_expr(text, s, c1, service) {
            return Ok((node(ExprKind::Unary(UnaryOp::Neg, Box::new(x))), n));
        }
    }
    power_expr(text, s, pos, service)
}

/// Parses one further factor at `pos`.
pub fn factor<S: Fn(Request) -> Reply>(text: &str, s: &Vec<char>, pos: usize, service: &S) -> (r:
    Result<((BinaryOp, Expr), usize), usize>)
    requires
        s@ == text@,
        pos <= s.len(),
        serves(*service),
    ensures
        produces_operand(r, factor_spec(s@, pos as int, *service), pos as int, s.len() as int),
    decreases s.len() - pos, 5int,
{
    let c1 = blanks(s, pos);
    if at(s, c1, '*') || at(s, c1, '/') {
        let op = if at(s, c1, '*') {
            BinaryOp::Mul
        } else {
            BinaryOp::Div
        };
        let c2 = blanks(s, c1 + 1);
        if let Ok((y, n)) = unary_expr(text, s, c2, service) {
            return Ok(((op, y), n));
        }
    }
    match power_expr(text, s, c1, service) {
        Ok((y, n)) => Ok(((BinaryOp::Mul, y), n)),
        Err(e) => Err(e),
    }
}

/// Parses a product at `pos`.
pub fn multiplicative_expr<S: Fn(Request) -> Reply>(text: &str, s: &Vec<char>, pos: usize, service: &S) -> (r:
    Result<(Expr, usize), usize>)
    requires
        s@ == text@,
        pos <= s.len(),
        serves(*service),
    ensures
        produces(r, multiplicative_expr_spec(s@, pos as int, *service), pos as int, s.len() as int),
    decreases s.len() - pos, 7int,
{
    match unary_expr(text, s, pos, service) {
        Err(e) => Err(e),
        Ok((x, n)) => {
            let ghost goal = factors(s@, n as int, x@, *service);
            let mut acc = x;
            let mut p = n;
            loop
                invariant
                    s@ == text@,
                    serves(*service),
                    pos < p <= s.len(),
                    acc.annotated(),
                    factors(s@, p as int, acc@, *service) == goal,
                    multiplicative_expr_spec(s@, pos as int, *service) == Ok::<(ExprModel, int), int>(goal),
                decreases s.len() - p,
            {
                match factor(text, s, p, service) {
                    Ok(((op, y), next)) => {
                        acc = node(ExprKind::Binary(op, Box::new(acc), Box::new(y)));
                        p = next;
                    },
                    Err(_) => {
                        return Ok((acc, p));
                    },
                }
            }
        },
    }
}

/// Parses one further term at `pos`.
pub fn term<S: Fn(Request) -> Reply>(text: &str, s: &Vec<char>, pos: usize, service: &S) -> (r: Result<
    ((BinaryOp, Expr), usize),
    usize,
>)
    requires
        s@ == text@,
        pos <= s.len(),
        serves(*service),
    ensures
        produces_operand(r, term_spec(s@, pos as int, *service), pos as int, s.len() as int),
    decreases s.len() - pos, 8int,
{
    let c1 = blanks(s, pos);
    if at(s, c1, '+') || at(s, c1, '-') {
        let op = if at(s, c1, '+') {
            BinaryOp::Add
        } else {
            BinaryOp::Sub
        };
        let c2 = blanks(s, c1 + 1);
        match multiplicative_expr(text, s, c2, service) {
            Ok((y, n)) => Ok(((op, y), n)),
            Err(e) => Err(e),
        }
    } else {
        Err(c1)
    }
}

/// Parses an expression at `pos`.
pub fn additive_expr<S: Fn(Request) -> Reply>(text: &str, s: &Vec<char>, pos: usize, service: &S) -> (r:
    Result<(Expr, usize), usize>)
    requires
        s@ == text@,
        pos <= s.len(),
        serves(*service),
    ensures
        produces(r, additive_expr_spec(s@, pos as int, *service), pos as int, s.len() as int),
    decreases s.len() - pos, 10int,
{
    match multiplicative_expr(text, s, pos, service) {
        Err(e) => Err(e),
        Ok((x, n)) => {
            let ghost goal = terms(s@, n as int, x@, *service);
            let mut acc = x;
            let mut p = n;
            loop
                invariant
                    s@ == text@,
                    serves(*service),
                    pos < p <= s.len(),
                    acc.annotated(),
                    terms(s@, p as int, acc@, *service) == goal,
                    additive_expr_spec(s@, pos as int, *service) == Ok::<(ExprModel, int), int>(goal),
                decreases s.len() - p,
            {
                match term(text, s, p, service) {
                    Ok(((op, y), next)) => {
                        acc = node(ExprKind::Binary(op, Box::new(acc), Box::new(y)));
                        p = next;
                    },
                    Err(_) => {
                        return Ok((acc, p));
                    },
                }
            }
        },
    }
}

/// The letter `e` before a character that continues a name is not the
/// constant e: no primary expression stands there.
pub proof fn lemma_e_starts_no_longer_name<S: Fn(Request) -> Reply>(s: Seq<char>, pos: int, sv: S)
    requires
        0 <= pos,
        pos + 1 < s.len(),
        s[pos] == 'e',
        crate::lex::continues_name(s[pos + 1]),
    ensures
        primary_expr_spec(s, pos, sv) == Err::<(ExprModel, int), int>(pos),
{
    reveal_strlit("pi");
    reveal_strlit("π");
    reveal_strlit("e");
    reveal_strlit("x");
    reveal_strlit("y");
    assert("e"@.len() == 1);
    assert(s.subrange(pos, pos + 1)[0] == 'e');
    assert(s.subrange(pos, pos + 1) =~= "e"@);
    crate::lex::lemma_keyword_boundary(s, pos, "e"@);
    assert(keyword_spec(s, pos, "e"@) == Err::<int, int>(pos + 1));
    if pos + 2 <= s.len() {
        assert(s.subrange(pos, pos + 2)[0] == 'e');
    }
}

} // verus!
