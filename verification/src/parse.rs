//! The grammar of relations, the parser of a whole text, and the diagnostic
//! of a failure.

use crate::grammar::{additive_expr, additive_expr_spec};
use crate::lex::{at, blanks, is_whitespace, skip_blanks, to_chars, whitespace};
use crate::rel::{Rel, RelKind, RelModel, RelOp};
use crate::service::{serves, Reply, Request};
use crate::text::{append_decimal, decimal};
use vstd::prelude::*;
use vstd::string::*;

verus! {

/// The outcome of parsing a relation at a position: the structure and the
/// position behind it, or the position at which parsing fails.
pub type RelOutcome = Result<(RelModel, int), int>;

/// The comparison operator at `pos` and the position behind it: one of
/// `==`, `>=`, `>`, `<=`, `<`.
pub open spec fn comparison_spec(s: Seq<char>, pos: int) -> Result<(RelOp, int), int> {
    if 0 <= pos && pos + 1 < s.len() && s[pos] == '=' && s[pos + 1] == '=' {
        Ok((RelOp::Eq, pos + 2))
    } else if 0 <= pos && pos + 1 < s.len() && s[pos] == '>' && s[pos + 1] == '=' {
        Ok((RelOp::Ge, pos + 2))
    } else if 0 <= pos < s.len() && s[pos] == '>' {
        Ok((RelOp::Gt, pos + 1))
    } else if 0 <= pos && pos + 1 < s.len() && s[pos] == '<' && s[pos + 1] == '=' {
        Ok((RelOp::Le, pos + 2))
    } else if 0 <= pos < s.len() && s[pos] == '<' {
        Ok((RelOp::Lt, pos + 1))
    } else {
        Err(pos)
    }
}

/// An atomic relation at `pos`: two expressions with a comparison operator
/// between them.
pub open spec fn equality_spec<S: Fn(Request) -> Reply>(s: Seq<char>, pos: int, sv: S) -> RelOutcome {
    match additive_expr_spec(s, pos, sv) {
        Err(e) => Err(e),
        Ok((x, n)) => match comparison_spec(s, skip_blanks(s, n)) {
            Err(e) => Err(e),
            Ok((op, c2)) => match additive_expr_spec(s, skip_blanks(s, c2), sv) {
                Err(e) => Err(e),
                Ok((y, next)) => Ok((RelModel::Atomic(op, x, y), next)),
            },
        },
    }
}

/// What follows an opening parenthesis at `pos`: a relation and the closing
/// parenthesis.
pub open spec fn parenthesized_spec<S: Fn(Request) -> Reply>(s: Seq<char>, pos: int, sv: S) -> RelOutcome
    decreases s.len() - pos, 0int,
{
    let c1 = skip_blanks(s, pos + 1);
    if 0 <= pos < c1 <= s.len() {
        match or_rel_spec(s, c1, sv) {
            Err(e) => Err(e),
            Ok((r, n)) => {
                let c2 = skip_blanks(s, n);
                if 0 <= c2 < s.len() && s[c2] == ')' {
                    Ok((r, c2 + 1))
                } else {
                    Err(c2)
                }
            },
        }
    } else {
        Err(pos)
    }
}

/// A primary relation at `pos`: a relation in parentheses, or an atomic
/// relation.
pub open spec fn primary_rel_spec<S: Fn(Request) -> Reply>(s: Seq<char>, pos: int, sv: S) -> RelOutcome
    decreases s.len() - pos, 1int,
{
    if 0 <= pos < s.len() && s[pos] == '(' && parenthesized_spec(s, pos, sv) is Ok {
        parenthesized_spec(s, pos, sv)
    } else {
        equality_spec(s, pos, sv)
    }
}

/// One further conjunct at `pos`: blanks, `&&`, blanks and a primary
/// relation.
pub open spec fn conjunct_spec<S: Fn(Request) -> Reply>(s: Seq<char>, pos: int, sv: S) -> RelOutcome
    decreases s.len() - pos, 2int,
{
    let c1 = skip_blanks(s, pos);
    let c2 = skip_blanks(s, c1 + 2);
    if 0 <= pos <= c1 && c1 + 1 < s.len() && s[c1] == '&' && s[c1 + 1] == '&' && pos < c2 <= s.len() {
        primary_rel_spec(s, c2, sv)
    } else {
        Err(c1)
    }
}

/// The conjunction that starts with `acc` and goes on at `pos` with as many
/// further conjuncts as stand there, associated to the left.
pub open spec fn conjuncts<S: Fn(Request) -> Reply>(s: Seq<char>, pos: int, acc: RelModel, sv: S) -> (
    RelModel,
    int,
)
    decreases s.len() - pos, 3int,
{
    match conjunct_spec(s, pos, sv) {
        Ok((y, n)) => if 0 <= pos < n <= s.len() {
            conjuncts(s, n, RelModel::And(Box::new(acc), Box::new(y)), sv)
        } else {
            (acc, pos)
        },
        Err(_) => (acc, pos),
    }
}

/// A conjunction at `pos`: primary relations joined by `&&`.
pub open spec fn and_rel_spec<S: Fn(Request) -> Reply>(s: Seq<char>, pos: int, sv: S) -> RelOutcome
    decreases s.len() - pos, 4int,
{
    match primary_rel_spec(s, pos, sv) {
        Err(e) => Err(e),
        Ok((x, n)) => if 0 <= pos < n <= s.len() {
            Ok(conjuncts(s, n, x, sv))
        } else {
            Ok((x, n))
        },
    }
}

/// One further disjunct at `pos`: blanks, `||`, blanks and a conjunction.
pub open spec fn disjunct_spec<S: Fn(Request) -> Reply>(s: Seq<char>, pos: int, sv: S) -> RelOutcome
    decreases s.len() - pos, 5int,
{
    let c1 = skip_blanks(s, pos);
    let c2 = skip_blanks(s, c1 + 2);
    if 0 <= pos <= c1 && c1 + 1 < s.len() && s[c1] == '|' && s[c1 + 1] == '|' && pos < c2 <= s.len() {
        and_rel_spec(s, c2, sv)
    } else {
        Err(c1)
    }
}

/// The disjunction that starts with `acc` and goes on at `pos` with as many
/// further disjuncts as stand there, associated to the left.
pub open spec fn disjuncts<S: Fn(Request) -> Reply>(s: Seq<char>, pos: int, acc: RelModel, sv: S) -> (
    RelModel,
    int,
)
    decreases s.len() - pos, 6int,
{
    match disjunct_spec(s, pos, sv) {
        Ok((y, n)) => if 0 <= pos < n <= s.len() {
            disjuncts(s, n, RelModel::Or(Box::new(acc), Box::new(y)), sv)
        } else {
            (acc, pos)
        },
        Err(_) => (acc, pos),
    }
}

/// A relation at `pos`: conjunctions joined by `||`, so that `&&` binds
/// tighter than `||`.
pub open spec fn or_rel_spec<S: Fn(Request) -> Reply>(s: Seq<char>, pos: int, sv: S) -> RelOutcome
    decreases s.len() - pos, 7int,
{
    match and_rel_spec(s, pos, sv) {
        Err(e) => Err(e),
        Ok((x, n)) => if 0 <= pos < n <= s.len() {
            Ok(disjuncts(s, n, x, sv))
        } else {
            Ok((x, n))
        },
    }
}

/// The relation that the whole text denotes, blanks before and behind it
/// allowed, or the position at which parsing fails: that of the first
/// character that is left over where a relation stands at the start.
pub open spec fn relation_spec<S: Fn(Request) -> Reply>(s: Seq<char>, sv: S) -> Result<RelModel, int> {
    match or_rel_spec(s, skip_blanks(s, 0), sv) {
        Err(e) => Err(e),
        Ok((r, n)) => {
            let p = skip_blanks(s, n);
            if p == s.len() {
                Ok(r)
            } else {
                Err(p)
            }
        },
    }
}

/// Whether the result `r` of parsing a relation at `pos` is the outcome `m`.
pub open spec fn produces_rel(r: Result<(Rel, usize), usize>, m: RelOutcome, pos: int, len: int) -> bool {
    match m {
        Ok((x, n)) => r is Ok && r->Ok_0.0@ == x && r->Ok_0.0.annotated() && r->Ok_0.1 == n && pos < n
            <= len,
        Err(e) => r is Err && r->Err_0 == e && pos <= e <= len,
    }
}

/// Matches a comparison operator at `pos`.
pub fn comparison(s: &Vec<char>, pos: usize) -> (r: Result<(RelOp, usize), usize>)
    requires
        pos <= s.len(),
    ensures
        match comparison_spec(s@, pos as int) {
            Ok((op, n)) => r == Ok::<(RelOp, usize), usize>((op, n as usize)) && pos < n <= s.len(),
            Err(e) => r == Err::<(RelOp, usize), usize>(e as usize) && e == pos,
        },
{
    if at(s, pos, '=') && at(s, pos + 1, '=') {
        Ok((RelOp::Eq, pos + 2))
    } else if at(s, pos, '>') && at(s, pos + 1, '=') {
        Ok((RelOp::Ge, pos + 2))
    } else if at(s, pos, '>') {
        Ok((RelOp::Gt, pos + 1))
    } else if at(s, pos, '<') && at(s, pos + 1, '=') {
        Ok((RelOp::Le, pos + 2))
    } else if at(s, pos, '<') {
        Ok((RelOp::Lt, pos + 1))
    } else {
        Err(pos)
    }
}

/// Parses an atomic relation at `pos`.
pub fn equality<S: Fn(Request) -> Reply>(text: &str, s: &Vec<char>, pos: usize, service: &S) -> (r:
    Result<(Rel, usize), usize>)
    requires
        s@ == text@,
        pos <= s.len(),
        serves(*service),
    ensures
        produces_rel(r, equality_spec(s@, pos as int, *service), pos as int, s.len() as int),
{
    match additive_expr(text, s, pos, service) {
        Err(e) => Err(e),
        Ok((x, n)) => match comparison(s, blanks(s, n)) {
            Err(e) => Err(e),
            Ok((op, c2)) => match additive_expr(text, s, blanks(s, c2), service) {
                Err(e) => Err(e),
                Ok((y, next)) => Ok((Rel::new(RelKind::Atomic(op, Box::new(x), Box::new(y))), next)),
            },
        },
    }
}

/// Parses what follows an opening parenthesis at `pos`.
pub fn parenthesized<S: Fn(Request) -> Reply>(text: &str, s: &Vec<char>, pos: usize, service: &S) -> (r:
    Result<(Rel, usize), usize>)
    requires
        s@ == text@,
        pos < s.len(),
        serves(*service),
    ensures
        produces_rel(r, parenthesized_spec(s@, pos as int, *service), pos as int, s.len() as int),
    decreases s.len() - pos, 0int,
{
    let c1 = blanks(s, pos + 1);
    match or_rel(text, s, c1, service) {
        Err(e) => Err(e),
        Ok((x, n)) => {
            let c2 = blanks(s, n);
            if at(s, c2, ')') {
                Ok((x, c2 + 1))
            } else {
                Err(c2)
            }
        },
    }
}

/// Parses a primary relation at `pos`.
pub fn primary_rel<S: Fn(Request) -> Reply>(text: &str, s: &Vec<char>, pos: usize, service: &S) -> (r:
    Result<(Rel, usize), usize>)
    requires
        s@ == text@,
        pos <= s.len(),
        serves(*service),
    ensures
        produces_rel(r, primary_rel_spec(s@, pos as int, *service), pos as int, s.len() as int),
    decreases s.len() - pos, 1int,
{
    if at(s, pos, '(') {
        if let Ok(found) = parenthesized(text, s, pos, service) {
            return Ok(found);
        }
    }
    equality(text, s, pos, service)
}

/// Parses one further conjunct at `pos`.
pub fn conjunct<S: Fn(Request) -> Reply>(text: &str, s: &Vec<char>, pos: usize, service: &S) -> (r:
    Result<(Rel, usize), usize>)
    requires
        s@ == text@,
        pos <= s.len(),
        serves(*service),
    ensures
        produces_rel(r, conjunct_spec(s@, pos as int, *service), pos as int, s.len() as int),
    decreases s.len() - pos, 2int,
{
    let c1 = blanks(s, pos);
    if at(s, c1, '&') && at(s, c1 + 1, '&') {
        primary_rel(text, s, blanks(s, c1 + 2), service)
    } else {
        Err(c1)
    }
}

/// Parses a conjunction at `pos`.
pub fn and_rel<S: Fn(Request) -> Reply>(text: &str, s: &Vec<char>, pos: usize, service: &S) -> (r:
    Result<(Rel, usize), usize>)
    requires
        s@ == text@,
        pos <= s.len(),
        serves(*service),
    ensures
        produces_rel(r, and_rel_spec(s@, pos as int, *service), pos as int, s.len() as int),
    decreases s.len() - pos, 4int,
{
    match primary_rel(text, s, pos, service) {
        Err(e) => Err(e),
        Ok((x, n)) => {
            let ghost goal = conjuncts(s@, n as int, x@, *service);
            let mut acc = x;
            let mut p = n;
            loop
                invariant
                    s@ == text@,
                    serves(*service),
                    pos < p <= s.len(),
                    acc.annotated(),
                    conjuncts(s@, p as int, acc@, *service) == goal,
                    and_rel_spec(s@, pos as int, *service) == Ok::<(RelModel, int), int>(goal),
                decreases s.len() - p,
            {
                match conjunct(text, s, p, service) {
                    Ok((y, next)) => {
                        acc = Rel::new(RelKind::And(Box::new(acc), Box::new(y)));
                        p = next;
                    },
                    Err(_) => {
                        return Ok((acc, p));
                    },
                }
            }
        },
    }
}

/// Parses one further disjunct at `pos`.
pub fn disjunct<S: Fn(Request) -> Reply>(text: &str, s: &Vec<char>, pos: usize, service: &S) -> (r:
    Result<(Rel, usize), usize>)
    requires
        s@ == text@,
        pos <= s.len(),
        serves(*service),
    ensures
        produces_rel(r, disjunct_spec(s@, pos as int, *service), pos as int, s.len() as int),
    decreases s.len() - pos, 5int,
{
    let c1 = blanks(s, pos);
    if at(s, c1, '|') && at(s, c1 + 1, '|') {
        and_rel(text, s, blanks(s, c1 + 2), service)
    } else {
        Err(c1)
    }
}

/// Parses a relation at `pos`.
pub fn or_rel<S: Fn(Request) -> Reply>(text: &str, s: &Vec<char>, pos: usize, service: &S) -> (r:
    Result<(Rel, usize), usize>)
    requires
        s@ == text@,
        pos <= s.len(),
        serves(*service),
    ensures
        produces_rel(r, or_rel_spec(s@, pos as int, *service), pos as int, s.len() as int),
    decreases s.len() - pos, 7int,
{
    match and_rel(text, s, pos, service) {
        Err(e) => Err(e),
        Ok((x, n)) => {
            let ghost goal = disjuncts(s@, n as int, x@, *service);
            let mut acc = x;
            let mut p = n;
            loop
                invariant
                    s@ == text@,
                    serves(*service),
                    pos < p <= s.len(),
                    acc.annotated(),
                    disjuncts(s@, p as int, acc@, *service) == goal,
                    or_rel_spec(s@, pos as int, *service) == Ok::<(RelModel, int), int>(goal),
                decreases s.len() - p,
            {
                match disjunct(text, s, p, service) {
                    Ok((y, next)) => {
                        acc = Rel::new(RelKind::Or(Box::new(acc), Box::new(y)));
                        p = next;
                    },
                    Err(_) => {
                        return Ok((acc, p));
                    },
                }
            }
        },
    }
}

/// The number of bytes that a character takes in UTF-8.
pub open spec fn utf8_width(c: char) -> nat {
    if (c as u32) < 0x80 {
        1
    } else if (c as u32) < 0x800 {
        2
    } else if (c as u32) < 0x1_0000 {
        3
    } else {
        4
    }
}

/// The number of bytes that the characters `s[from..to]` take in UTF-8.
pub open spec fn byte_width(s: Seq<char>, from: int, to: int) -> nat
    decreases to - from,
{
    if to <= from {
        0
    } else {
        byte_width(s, from, to - 1) + utf8_width(s[to - 1])
    }
}

/// The start of the line that holds the position `at`: the position behind
/// the last line feed before `at`, or 0.
pub open spec fn line_start(s: Seq<char>, at: int) -> int
    decreases at,
{
    if at <= 0 {
        0
    } else if s[at - 1] == '\n' {
        at
    } else {
        line_start(s, at - 1)
    }
}

/// The number of the line that holds the position `at`, counted from 1.
pub open spec fn line_number(s: Seq<char>, at: int) -> nat
    decreases at,
{
    if at <= 0 {
        1
    } else if s[at - 1] == '\n' {
        line_number(s, at - 1) + 1
    } else {
        line_number(s, at - 1)
    }
}

/// The end of the line that starts at `from`: the position of the next line
/// feed, or the end of the text.
pub open spec fn line_end(s: Seq<char>, from: int) -> int
    decreases s.len() - from,
{
    if 0 <= from < s.len() && s[from] != '\n' {
        line_end(s, from + 1)
    } else {
        from
    }
}

/// The end of `s[begin..end]` without the white space at its end.
pub open spec fn trimmed_end(s: Seq<char>, begin: int, end: int) -> int
    decreases end - begin,
{
    if begin < end && whitespace(s[end - 1]) {
        trimmed_end(s, begin, end - 1)
    } else {
        end
    }
}

/// `n` blanks.
pub open spec fn padding(n: nat) -> Seq<char>
    decreases n,
{
    if n == 0 {
        Seq::empty()
    } else {
        padding((n - 1) as nat) + " "@
    }
}

/// The text of the offending line: from its start to its end, without white
/// space at the end.
pub open spec fn offending_line(s: Seq<char>, at: int) -> Seq<char> {
    let begin = line_start(s, at);
    s.subrange(begin, trimmed_end(s, begin, line_end(s, begin)))
}

/// The diagnostic for a failure at the position `at`: the number of the
/// line, the text of the line, and a caret under the failing column, which
/// is counted in bytes of UTF-8.
pub open spec fn error_message(s: Seq<char>, at: int) -> Seq<char> {
    "at line "@ + decimal(line_number(s, at)) + ":\n"@ + offending_line(s, at) + "\n"@ + padding(
        byte_width(s, line_start(s, at), at),
    ) + "^\n\n"@
}

/// The number of bytes that a character takes in UTF-8.
pub fn utf8_len(c: char) -> (r: usize)
    ensures
        r == utf8_width(c),
        1 <= r <= 4,
{
    let code = c as u32;
    if code < 0x80 {
        1
    } else if code < 0x800 {
        2
    } else if code < 0x1_0000 {
        3
    } else {
        4
    }
}

/// Renders the diagnostic for a failure at the position `at` of `text`.
pub fn convert_error(text: &str, s: &Vec<char>, at: usize) -> (r: String)
    requires
        s@ == text@,
        at <= s.len(),
    ensures
        r@ == error_message(s@, at as int),
{
    // The line's start and its number.
    let mut begin: usize = at;
    while begin > 0 && s[begin - 1] != '\n'
        invariant
            0 <= begin <= at <= s.len(),
            line_start(s@, begin as int) == line_start(s@, at as int),
        decreases begin,
    {
        begin -= 1;
    }
    let mut number: u128 = 1;
    let mut i: usize = 0;
    while i < at
        invariant
            0 <= i <= at <= s.len(),
            number == line_number(s@, i as int),
            number <= i + 1,
        decreases at - i,
    {
        if s[i] == '\n' {
            number += 1;
        }
        i += 1;
    }
    // The line's end, then without white space.
    let mut end: usize = begin;
    while end < s.len() && s[end] != '\n'
        invariant
            begin <= end <= s.len(),
            line_end(s@, begin as int) == line_end(s@, end as int),
        decreases s.len() - end,
    {
        end += 1;
    }
    let ghost full_end = end;
    while begin < end && is_whitespace(s[end - 1])
        invariant
            begin <= end <= s.len(),
            trimmed_end(s@, begin as int, full_end as int) == trimmed_end(s@, begin as int, end as int),
        decreases end - begin,
    {
        end -= 1;
    }
    // The column, in bytes.
    let mut width: u128 = 0;
    let mut j: usize = begin;
    while j < at
        invariant
            begin <= j <= at <= s.len(),
            width == byte_width(s@, begin as int, j as int),
            width <= 4 * (j - begin),
        decreases at - j,
    {
        width += utf8_len(s[j]) as u128;
        j += 1;
    }
    let mut out = String::from_str("at line ");
    append_decimal(&mut out, number);
    out.append(":\n");
    out.append(text.substring_char(begin, end));
    out.append("\n");
    let mut k: u128 = 0;
    let ghost head = out@;
    while k < width
        invariant
            0 <= k <= width,
            out@ == head + padding(k as nat),
        decreases width - k,
    {
        out.append(" ");
        k += 1;
    }
    out.append("^\n\n");
    out
}

/// Parses a relation such as `sin(x) >= 0 && x < 1`.
///
/// The numeric service turns each decimal literal and each named constant
/// into a constant node; every expression node of the result carries its
/// metadata. The whole text has to be a relation: where it is not, the result
/// is the diagnostic for the position at which parsing fails.
pub fn parse<S: Fn(Request) -> Reply>(text: &str, service: &S) -> (r: Result<Rel, String>)
    requires
        serves(*service),
    ensures
        match relation_spec(text@, *service) {
            Ok(m) => r is Ok && r->Ok_0@ == m && r->Ok_0.annotated(),
            Err(at) => r is Err && r->Err_0@ == error_message(text@, at),
        },
{
    let s = to_chars(text);
    match or_rel(text, &s, blanks(&s, 0), service) {
        Err(e) => Err(convert_error(text, &s, e)),
        Ok((x, n)) => {
            let p = blanks(&s, n);
            if p == s.len() {
                Ok(x)
            } else {
                Err(convert_error(text, &s, p))
            }
        },
    }
}

} // verus!
