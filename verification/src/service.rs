//! The numeric service: what the library asks of the arithmetic on
//! enclosures and exact rationals, which is not its own.

use crate::interval::Enclosure;
use crate::ops::{BinaryOp, UnaryOp};
use crate::rational::{exact_model, Rational, RationalModel};
use vstd::prelude::*;

verus! {

/// An operator as it is handed to the numeric service.
#[derive(Clone, Copy, Debug, PartialEq, Eq, Structural)]
pub enum Operation {
    Unary(UnaryOp),
    Binary(BinaryOp),
    /// The integer root with the given index.
    Rootn(u32),
}

/// A named constant of the grammar.
#[derive(Clone, Copy, Debug, PartialEq, Eq, Structural)]
pub enum NamedConstant {
    Pi,
    E,
}

/// A piece of numeric work that the library asks of the numeric service: the
/// arithmetic on enclosures and on exact rationals is not the library's own.
#[derive(Clone, Debug)]
pub enum Request {
    /// The constant that a decimal literal denotes: an enclosure of its exact
    /// decimal value and, where feasible, the value itself.
    Literal(String),
    /// The constant that a name denotes.
    Named(NamedConstant),
    /// The operator applied to enclosures, operands in the order of the tree;
    /// for a ranked operator the list's elements, then the rank.
    Apply(Operation, Vec<Enclosure>),
    /// The operator's exact rational definition applied to rationals, where it
    /// is defined.
    Exact(Operation, Vec<Rational>),
    /// The tightest enclosure of a rational.
    Enclose(Rational),
    /// The rational that an enclosure holds where it is a single point.
    Recover(Enclosure),
}

/// What the numeric service answers.
#[derive(Clone, Debug)]
pub enum Reply {
    Constant(Enclosure, Option<Rational>),
    Enclosure(Enclosure),
    Exact(Option<Rational>),
}

/// The content of a [`Request`].
pub enum RequestModel {
    Literal(Seq<char>),
    Named(NamedConstant),
    Apply(Operation, Seq<Enclosure>),
    Exact(Operation, Seq<RationalModel>),
    Enclose(RationalModel),
    Recover(Enclosure),
}

/// The content of a [`Reply`].
pub enum ReplyModel {
    Constant(Enclosure, Option<RationalModel>),
    Enclosure(Enclosure),
    Exact(Option<RationalModel>),
}

impl View for Request {
    type V = RequestModel;

    open spec fn view(&self) -> RequestModel {
        match self {
            Request::Literal(text) => RequestModel::Literal(text@),
            Request::Named(c) => RequestModel::Named(*c),
            Request::Apply(op, xs) => RequestModel::Apply(*op, xs@),
            Request::Exact(op, xs) => RequestModel::Exact(*op, Seq::new(xs.len() as nat, |i: int| xs[i]@)),
            Request::Enclose(q) => RequestModel::Enclose(q@),
            Request::Recover(e) => RequestModel::Recover(*e),
        }
    }
}

impl View for Reply {
    type V = ReplyModel;

    open spec fn view(&self) -> ReplyModel {
        match self {
            Reply::Constant(e, r) => ReplyModel::Constant(*e, exact_model(*r)),
            Reply::Enclosure(e) => ReplyModel::Enclosure(*e),
            Reply::Exact(r) => ReplyModel::Exact(exact_model(*r)),
        }
    }
}

/// Whether a reply has the form that the request asks for.
pub open spec fn fits(q: RequestModel, a: ReplyModel) -> bool {
    match q {
        RequestModel::Literal(_) => a is Constant,
        RequestModel::Named(_) => a is Constant,
        RequestModel::Apply(_, _) => a is Enclosure,
        RequestModel::Exact(_, _) => a is Exact,
        RequestModel::Enclose(_) => a is Enclosure,
        RequestModel::Recover(_) => a is Exact,
    }
}

/// Whether `s` can serve as numeric service: it accepts every request, its
/// reply has the form that the request asks for, and requests with the same
/// content get replies with the same content.
pub open spec fn serves<S: Fn(Request) -> Reply>(s: S) -> bool {
    &&& forall|q: Request| call_requires(s, (q,))
    &&& forall|q: Request, a: Reply| call_ensures(s, (q,), a) ==> fits(q@, a@)
    &&& forall|q1: Request, a1: Reply, q2: Request, a2: Reply|
        call_ensures(s, (q1,), a1) && call_ensures(s, (q2,), a2) && q1@ == q2@ ==> a1@ == a2@
}

/// Whether `s` may reply `a` to a request with the content `q`.
pub open spec fn replies<S: Fn(Request) -> Reply>(s: S, q: RequestModel, a: ReplyModel) -> bool {
    exists|req: Request, rep: Reply| req@ == q && rep@ == a && call_ensures(s, (req,), rep)
}

/// The content of the reply of `s` to a request with the content `q`.
pub open spec fn answer<S: Fn(Request) -> Reply>(s: S, q: RequestModel) -> ReplyModel {
    choose|a: ReplyModel| replies(s, q, a)
}

/// What a numeric service has replied is its answer.
pub proof fn lemma_answer<S: Fn(Request) -> Reply>(s: S, req: Request, rep: Reply)
    requires
        serves(s),
        call_ensures(s, (req,), rep),
    ensures
        rep@ == answer(s, req@),
        fits(req@, rep@),
{
    assert(replies(s, req@, rep@));
    let a = answer(s, req@);
    assert(replies(s, req@, a));
    let (req2, rep2) = choose|req2: Request, rep2: Reply|
        req2@ == req@ && rep2@ == a && call_ensures(s, (req2,), rep2);
    assert(rep@ == rep2@);
}

/// Asks the numeric service.
pub fn ask<S: Fn(Request) -> Reply>(service: &S, req: Request) -> (rep: Reply)
    requires
        serves(*service),
    ensures
        rep@ == answer(*service, req@),
        fits(req@, rep@),
{
    let ghost q = req@;
    let ghost old_req = req;
    let rep = service(req);
    proof {
        lemma_answer(*service, old_req, rep);
    }
    rep
}

} // verus!
