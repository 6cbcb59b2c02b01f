//! Evaluation of constant expressions on two tracks: exact rationals where
//! every operand has one and the operator is defined on them, enclosures
//! otherwise.

use crate::ast::{Expr, ExprKind, ExprModel};
use crate::interval::Enclosure;
use crate::ops::Track;
use crate::rational::{exact_model, Rational, RationalModel};
use crate::service::{answer, ask, Operation, Reply, ReplyModel, Request, RequestModel};
use vstd::prelude::*;

verus! {

/// The content of an evaluated constant: its enclosure and, where it is known,
/// its exact value.
pub type ConstantModel = (Enclosure, Option<RationalModel>);

/// The content of an optional constant.
pub open spec fn constant_model(c: Option<(Enclosure, Option<Rational>)>) -> Option<ConstantModel> {
    match c {
        Some(v) => Some((v.0, exact_model(v.1))),
        None => None,
    }
}

/// The contents of a sequence of constants.
pub open spec fn constant_models(vs: Seq<(Enclosure, Option<Rational>)>) -> Seq<ConstantModel> {
    Seq::new(vs.len(), |i: int| (vs[i].0, exact_model(vs[i].1)))
}

/// Whether every operand carries an exact value.
pub open spec fn all_exact(vs: Seq<ConstantModel>) -> bool {
    forall|i: int| 0 <= i < vs.len() ==> (#[trigger] vs[i]).1 is Some
}

/// The exact values of the operands.
pub open spec fn rationals(vs: Seq<ConstantModel>) -> Seq<RationalModel> {
    Seq::new(vs.len(), |i: int| vs[i].1->0)
}

/// The enclosures of the operands.
pub open spec fn enclosures(vs: Seq<ConstantModel>) -> Seq<Enclosure> {
    Seq::new(vs.len(), |i: int| vs[i].0)
}

/// The exact result of an operator on operands that all carry an exact value,
/// where the service finds it defined.
pub open spec fn exact_result<S: Fn(Request) -> Reply>(
    s: S,
    op: Operation,
    vs: Seq<ConstantModel>,
) -> Option<RationalModel> {
    if all_exact(vs) {
        answer(s, RequestModel::Exact(op, rationals(vs)))->Exact_0
    } else {
        None
    }
}

/// The value of an operator with an exact rational definition: where the
/// exact result exists, its tightest enclosure together with it; else the
/// operator applied to the enclosures, without an exact value.
pub open spec fn exact_step<S: Fn(Request) -> Reply>(
    s: S,
    op: Operation,
    vs: Seq<ConstantModel>,
) -> ConstantModel {
    match exact_result(s, op, vs) {
        Some(q) => (answer(s, RequestModel::Enclose(q))->Enclosure_0, Some(q)),
        None => (answer(s, RequestModel::Apply(op, enclosures(vs)))->Enclosure_0, None),
    }
}

/// The value of an operator without an exact rational definition: the
/// operator applied to the enclosures, and the exact value that the service
/// recovers from the result.
pub open spec fn enclosure_step<S: Fn(Request) -> Reply>(
    s: S,
    op: Operation,
    es: Seq<Enclosure>,
) -> ConstantModel {
    let z = answer(s, RequestModel::Apply(op, es))->Enclosure_0;
    (z, answer(s, RequestModel::Recover(z))->Exact_0)
}

/// The value of a ranked operator on the enclosures of the list's elements
/// followed by that of the rank: never exact.
pub open spec fn ranked_step<S: Fn(Request) -> Reply>(
    s: S,
    op: Operation,
    es: Seq<Enclosure>,
) -> ConstantModel {
    (answer(s, RequestModel::Apply(op, es))->Enclosure_0, None)
}

impl ExprModel {
    /// The enclosures of the values of `xs[0..n]`, where each of them is
    /// constant.
    pub open spec fn values<S: Fn(Request) -> Reply>(xs: Seq<ExprModel>, s: S, n: int) -> Option<
        Seq<Enclosure>,
    >
        decreases xs, n,
    {
        if n <= 0 || n > xs.len() {
            Some(Seq::empty())
        } else {
            match Self::values(xs, s, n - 1) {
                None => None,
                Some(es) => match xs[n - 1].value(s) {
                    None => None,
                    Some(v) => Some(es.push(v.0)),
                },
            }
        }
    }

    /// The constant that the structure evaluates to with the numeric service
    /// `s`, or `None` where it is not constant: a variable, a bare list, a
    /// boolean operator, or an operator on such an operand.
    pub open spec fn value<S: Fn(Request) -> Reply>(self, s: S) -> Option<ConstantModel>
        decreases self,
    {
        match self {
            ExprModel::Constant(e, r) => Some((e, r)),
            ExprModel::Unary(op, x) => match op.track_spec() {
                Track::Exact => match x.value(s) {
                    None => None,
                    Some(vx) => Some(exact_step(s, Operation::Unary(op), seq![vx])),
                },
                Track::Enclosure => match x.value(s) {
                    None => None,
                    Some(vx) => Some(enclosure_step(s, Operation::Unary(op), seq![vx.0])),
                },
                _ => None,
            },
            ExprModel::Binary(op, x, y) => match op.track_spec() {
                Track::Exact => match x.value(s) {
                    None => None,
                    Some(vx) => match y.value(s) {
                        None => None,
                        Some(vy) => Some(exact_step(s, Operation::Binary(op), seq![vx, vy])),
                    },
                },
                Track::Enclosure => match x.value(s) {
                    None => None,
                    Some(vx) => match y.value(s) {
                        None => None,
                        Some(vy) => Some(enclosure_step(s, Operation::Binary(op), seq![vx.0, vy.0])),
                    },
                },
                Track::Ranked => match *x {
                    ExprModel::List(xs) => match Self::values(xs, s, xs.len() as int) {
                        None => None,
                        Some(es) => match y.value(s) {
                            None => None,
                            Some(vn) => Some(ranked_step(s, Operation::Binary(op), es.push(vn.0))),
                        },
                    },
                    _ => None,
                },
                _ => None,
            },
            ExprModel::Rootn(x, n) => match x.value(s) {
                None => None,
                Some(vx) => Some(enclosure_step(s, Operation::Rootn(n), seq![vx.0])),
            },
            _ => None,
        }
    }

    /// Whether evaluation with the numeric service `s` reaches no node that
    /// it must not reach: none without content, no operator that is
    /// rewritten into an integer power before evaluation, no integer power,
    /// and no ranked operator whose left operand is no list. Operands are
    /// evaluated from left to right, and what follows an operand that is not
    /// constant is not reached.
    pub open spec fn evaluable<S: Fn(Request) -> Reply>(self, s: S) -> bool
        decreases self,
    {
        match self {
            ExprModel::Unary(op, x) => match op.track_spec() {
                Track::Rewritten => false,
                Track::NotScalar => true,
                _ => x.evaluable(s),
            },
            ExprModel::Binary(op, x, y) => match op.track_spec() {
                Track::Exact => x.evaluable(s) && (x.value(s) is Some ==> y.evaluable(s)),
                Track::Enclosure => x.evaluable(s) && (x.value(s) is Some ==> y.evaluable(s)),
                Track::Ranked => match *x {
                    ExprModel::List(xs) => (forall|i: int|
                        0 <= i < xs.len() && Self::values(xs, s, i) is Some ==> (#[trigger] xs[i]).evaluable(s))
                        && (Self::values(xs, s, xs.len() as int) is Some ==> y.evaluable(s)),
                    _ => false,
                },
                _ => true,
            },
            ExprModel::Rootn(x, _) => x.evaluable(s),
            ExprModel::Pown(_, _) => false,
            ExprModel::Uninit => false,
            _ => true,
        }
    }
}

/// What the evaluation of one operator on evaluated operands does next: it
/// asks the numeric service, or it is done and has the value.
#[derive(Debug)]
pub enum Step {
    Ask(Request),
    Done((Enclosure, Option<Rational>)),
}

/// The content of a [`Step`].
pub enum StepModel {
    Ask(RequestModel),
    Done(ConstantModel),
}

impl View for Step {
    type V = StepModel;

    open spec fn view(&self) -> StepModel {
        match self {
            Step::Ask(q) => StepModel::Ask(q@),
            Step::Done(c) => StepModel::Done((c.0, exact_model(c.1))),
        }
    }
}

/// The contents of a sequence of replies.
pub open spec fn reply_models(replies: Seq<Reply>) -> Seq<ReplyModel> {
    Seq::new(replies.len(), |i: int| replies[i]@)
}

/// The value that stands for a reply of the wrong form: all reals, without
/// an exact value.
pub open spec fn unknown() -> ConstantModel {
    (
        Enclosure {
            interval: crate::interval::Interval {
                inf: crate::interval::NEG_INFINITY_BITS,
                sup: crate::float::INFINITY_BITS,
            },
            decoration: crate::interval::Decoration::Trv,
        },
        None,
    )
}

/// The next step of an operator with an exact rational definition, after the
/// replies so far. Where every operand is exact, the exact result is asked
/// for first; where there is one, its tightest enclosure is asked for and
/// both are the value. Else the operator is applied to the enclosures, and
/// the value has no exact part.
pub open spec fn next_exact_spec(op: Operation, vs: Seq<ConstantModel>, replies: Seq<ReplyModel>) -> StepModel {
    let apply = RequestModel::Apply(op, enclosures(vs));
    if replies.len() == 0 {
        if all_exact(vs) {
            StepModel::Ask(RequestModel::Exact(op, rationals(vs)))
        } else {
            StepModel::Ask(apply)
        }
    } else if !all_exact(vs) {
        match replies[0] {
            ReplyModel::Enclosure(e) => StepModel::Done((e, None)),
            _ => StepModel::Done(unknown()),
        }
    } else if replies.len() == 1 {
        match replies[0] {
            ReplyModel::Exact(Some(q)) => StepModel::Ask(RequestModel::Enclose(q)),
            _ => StepModel::Ask(apply),
        }
    } else {
        match replies[1] {
            ReplyModel::Enclosure(e) => match replies[0] {
                ReplyModel::Exact(Some(q)) => StepModel::Done((e, Some(q))),
                _ => StepModel::Done((e, None)),
            },
            _ => StepModel::Done(unknown()),
        }
    }
}

/// The next step of an operator that is evaluated on enclosures, after the
/// replies so far: the operator is applied to the enclosures; then, where
/// `recover` holds, the exact value of the result is asked for.
pub open spec fn next_enclosure_spec(
    op: Operation,
    es: Seq<Enclosure>,
    recover: bool,
    replies: Seq<ReplyModel>,
) -> StepModel {
    if replies.len() == 0 {
        StepModel::Ask(RequestModel::Apply(op, es))
    } else {
        match replies[0] {
            ReplyModel::Enclosure(e) => if !recover {
                StepModel::Done((e, None))
            } else if replies.len() == 1 {
                StepModel::Ask(RequestModel::Recover(e))
            } else {
                match replies[1] {
                    ReplyModel::Exact(z) => StepModel::Done((e, z)),
                    _ => StepModel::Done((e, None)),
                }
            },
            _ => StepModel::Done(unknown()),
        }
    }
}

/// The enclosures of evaluated operands, and their exact values where every
/// operand has one.
pub fn split(operands: &Vec<(Enclosure, Option<Rational>)>) -> (r: (Vec<Enclosure>, Option<Vec<Rational>>))
    ensures
        r.0@ == enclosures(constant_models(operands@)),
        r.1 is Some == all_exact(constant_models(operands@)),
        r.1 is Some ==> Seq::new(r.1->0.len() as nat, |i: int| r.1->0[i]@) == rationals(
            constant_models(operands@),
        ),
{
    let ghost vs = constant_models(operands@);
    let mut es: Vec<Enclosure> = Vec::new();
    let mut qs: Vec<Rational> = Vec::new();
    let mut exact = true;
    let mut i: usize = 0;
    while i < operands.len()
        invariant
            0 <= i <= operands.len(),
            vs == constant_models(operands@),
            es@ == enclosures(vs).subrange(0, i as int),
            exact == (forall|j: int| 0 <= j < i ==> (#[trigger] vs[j]).1 is Some),
            exact ==> qs.len() == i,
            exact ==> forall|j: int| 0 <= j < i ==> (#[trigger] qs[j])@ == vs[j].1->0,
        decreases operands.len() - i,
    {
        es.push(operands[i].0);
        assert(es@ =~= enclosures(vs).subrange(0, i + 1));
        match &operands[i].1 {
            Some(q) => {
                if exact {
                    qs.push(q.duplicate());
                }
            },
            None => {
                assert(vs[i as int].1 is None);
                exact = false;
            },
        }
        i += 1;
    }
    assert(es@ =~= enclosures(vs));
    assert(exact == all_exact(vs));
    if exact {
        assert(Seq::new(qs.len() as nat, |i: int| qs[i]@) =~= rationals(vs));
        (es, Some(qs))
    } else {
        (es, None)
    }
}

/// A copy of an optional rational.
pub fn duplicate_exact(q: &Option<Rational>) -> (r: Option<Rational>)
    ensures
        exact_model(r) == exact_model(*q),
{
    match q {
        Some(x) => Some(x.duplicate()),
        None => None,
    }
}

/// The next step of an operator with an exact rational definition on
/// evaluated operands, after the replies that the numeric service has given
/// so far.
pub fn next_exact(op: Operation, operands: &Vec<(Enclosure, Option<Rational>)>, replies: &Vec<Reply>) -> (r:
    Step)
    ensures
        r@ == next_exact_spec(op, constant_models(operands@), reply_models(replies@)),
{
    let (es, qs) = split(operands);
    if replies.len() == 0 {
        return match qs {
            Some(qs) => {
                let request = Request::Exact(op, qs);
                assert(request@->Exact_1 =~= rationals(constant_models(operands@)));
                Step::Ask(request)
            },
            None => Step::Ask(Request::Apply(op, es)),
        };
    }
    assert(reply_models(replies@)[0] == replies[0]@);
    if qs.is_none() {
        return match &replies[0] {
            Reply::Enclosure(e) => Step::Done((*e, None)),
            _ => Step::Done((Enclosure::entire(), None)),
        };
    }
    if replies.len() == 1 {
        return match &replies[0] {
            Reply::Exact(Some(q)) => Step::Ask(Request::Enclose(q.duplicate())),
            _ => Step::Ask(Request::Apply(op, es)),
        };
    }
    assert(reply_models(replies@)[1] == replies[1]@);
    match &replies[1] {
        Reply::Enclosure(e) => match &replies[0] {
            Reply::Exact(Some(q)) => Step::Done((*e, Some(q.duplicate()))),
            _ => Step::Done((*e, None)),
        },
        _ => Step::Done((Enclosure::entire(), None)),
    }
}

/// The next step of an operator that is evaluated on enclosures, after the
/// replies that the numeric service has given so far.
pub fn next_enclosure(op: Operation, operands: &Vec<Enclosure>, recover: bool, replies: &Vec<Reply>) -> (r:
    Step)
    ensures
        r@ == next_enclosure_spec(op, operands@, recover, reply_models(replies@)),
{
    if replies.len() == 0 {
        let mut es: Vec<Enclosure> = Vec::new();
        let mut i: usize = 0;
        while i < operands.len()
            invariant
                0 <= i <= operands.len(),
                es@ == operands@.subrange(0, i as int),
            decreases operands.len() - i,
        {
            es.push(operands[i]);
            assert(es@ =~= operands@.subrange(0, i + 1));
            i += 1;
        }
        assert(es@ =~= operands@);
        return Step::Ask(Request::Apply(op, es));
    }
    assert(reply_models(replies@)[0] == replies[0]@);
    match &replies[0] {
        Reply::Enclosure(e) => {
            if !recover {
                Step::Done((*e, None))
            } else if replies.len() == 1 {
                Step::Ask(Request::Recover(*e))
            } else {
                assert(reply_models(replies@)[1] == replies[1]@);
                match &replies[1] {
                    Reply::Exact(z) => Step::Done((*e, duplicate_exact(z))),
                    _ => Step::Done((*e, None)),
                }
            }
        },
        _ => Step::Done((Enclosure::entire(), None)),
    }
}

/// Applies an operator that has an exact rational definition to evaluated
/// operands.
///
/// Where every operand carries an exact value and the service finds the exact
/// result defined, the result is that value with its tightest enclosure;
/// else it is the operator applied to the enclosures, without an exact value.
pub fn apply_exact<S: Fn(Request) -> Reply>(
    service: &S,
    op: Operation,
    operands: Vec<(Enclosure, Option<Rational>)>,
) -> (r: (Enclosure, Option<Rational>))
    requires
        crate::service::serves(*service),
    ensures
        (r.0, exact_model(r.1)) == exact_step(*service, op, constant_models(operands@)),
{
    let ghost vs = constant_models(operands@);
    let mut replies: Vec<Reply> = Vec::new();
    assert(reply_models(replies@) =~= Seq::<ReplyModel>::empty());
    loop
        invariant
            crate::service::serves(*service),
            vs == constant_models(operands@),
            replies.len() <= 2,
            replies.len() >= 1 ==> {
                let first = next_exact_spec(op, vs, Seq::empty());
                &&& first is Ask
                &&& reply_models(replies@)[0] == answer(*service, first->Ask_0)
                &&& crate::service::fits(first->Ask_0, reply_models(replies@)[0])
            },
            replies.len() == 2 ==> {
                let second = next_exact_spec(op, vs, seq![reply_models(replies@)[0]]);
                &&& second is Ask
                &&& reply_models(replies@)[1] == answer(*service, second->Ask_0)
                &&& crate::service::fits(second->Ask_0, reply_models(replies@)[1])
            },
        decreases 2 - replies.len(),
    {
        let ghost before = reply_models(replies@);
        match next_exact(op, &operands, &replies) {
            Step::Done(value) => {
                return value;
            },
            Step::Ask(request) => {
                let reply = ask(service, request);
                proof {
                    if before.len() == 1 {
                        assert(before =~= seq![before[0]]);
                    }
                }
                replies.push(reply);
                assert(reply_models(replies@) =~= before.push(reply@));
            },
        }
    }
}

/// Applies an operator on enclosures and recovers the exact value of the
/// result where the service finds one.
pub fn apply_enclosure<S: Fn(Request) -> Reply>(service: &S, op: Operation, operands: Vec<Enclosure>) -> (r:
    (Enclosure, Option<Rational>))
    requires
        crate::service::serves(*service),
    ensures
        (r.0, exact_model(r.1)) == enclosure_step(*service, op, operands@),
{
    let mut replies: Vec<Reply> = Vec::new();
    assert(reply_models(replies@) =~= Seq::<ReplyModel>::empty());
    loop
        invariant
            crate::service::serves(*service),
            replies.len() <= 2,
            replies.len() >= 1 ==> {
                let first = RequestModel::Apply(op, operands@);
                &&& reply_models(replies@)[0] == answer(*service, first)
                &&& crate::service::fits(first, reply_models(replies@)[0])
            },
            replies.len() == 2 ==> {
                let second = RequestModel::Recover(reply_models(replies@)[0]->Enclosure_0);
                &&& reply_models(replies@)[1] == answer(*service, second)
                &&& crate::service::fits(second, reply_models(replies@)[1])
            },
        decreases 2 - replies.len(),
    {
        let ghost before = reply_models(replies@);
        match next_enclosure(op, &operands, true, &replies) {
            Step::Done(value) => {
                return value;
            },
            Step::Ask(request) => {
                let reply = ask(service, request);
                replies.push(reply);
                assert(reply_models(replies@) =~= before.push(reply@));
            },
        }
    }
}

/// Applies a ranked operator on the enclosures of the list's elements
/// followed by that of the rank.
pub fn apply_ranked<S: Fn(Request) -> Reply>(service: &S, op: Operation, operands: Vec<Enclosure>) -> (r: (
    Enclosure,
    Option<Rational>,
))
    requires
        crate::service::serves(*service),
    ensures
        (r.0, exact_model(r.1)) == ranked_step(*service, op, operands@),
{
    let mut replies: Vec<Reply> = Vec::new();
    assert(reply_models(replies@) =~= Seq::<ReplyModel>::empty());
    loop
        invariant
            crate::service::serves(*service),
            replies.len() <= 1,
            replies.len() == 1 ==> {
                let first = RequestModel::Apply(op, operands@);
                &&& reply_models(replies@)[0] == answer(*service, first)
                &&& crate::service::fits(first, reply_models(replies@)[0])
            },
        decreases 1 - replies.len(),
    {
        let ghost before = reply_models(replies@);
        match next_enclosure(op, &operands, false, &replies) {
            Step::Done(value) => {
                return value;
            },
            Step::Ask(request) => {
                let reply = ask(service, request);
                replies.push(reply);
                assert(reply_models(replies@) =~= before.push(reply@));
            },
        }
    }
}

impl Expr {
    /// Evaluates the elements of a list in order and collects their
    /// enclosures, or returns `None` as soon as one of them is not constant.
    pub fn eval_elements<S: Fn(Request) -> Reply>(xs: &Vec<Expr>, service: &S) -> (r: Option<Vec<Enclosure>>)
        requires
            crate::service::serves(*service),
            forall|i: int|
                0 <= i < xs.len() && ExprModel::values(Self::models(xs@), *service, i) is Some
                    ==> (#[trigger] xs[i])@.evaluable(*service),
        ensures
            match r {
                Some(es) => ExprModel::values(Self::models(xs@), *service, xs.len() as int) == Some(es@),
                None => ExprModel::values(Self::models(xs@), *service, xs.len() as int) is None,
            },
        decreases xs,
    {
        let ghost ms = Self::models(xs@);
        proof {
            Self::lemma_models(xs@);
        }
        let mut es: Vec<Enclosure> = Vec::new();
        let mut i: usize = 0;
        while i < xs.len()
            invariant
                0 <= i <= xs.len(),
                ms == Self::models(xs@),
                ms.len() == xs.len(),
                crate::service::serves(*service),
                forall|j: int| 0 <= j < xs.len() ==> (#[trigger] ms[j]) == xs[j].model(),
                forall|j: int|
                    0 <= j < xs.len() && ExprModel::values(ms, *service, j) is Some
                        ==> (#[trigger] xs[j])@.evaluable(*service),
                ExprModel::values(ms, *service, i as int) == Some(es@),
            decreases xs.len() - i,
        {
            assert(xs[i as int]@.evaluable(*service));
            assert(ms[i as int] == xs[i as int]@);
            match xs[i].eval(service) {
                None => {
                    proof {
                        Self::lemma_values_stay_none(ms, *service, i + 1, xs.len() as int);
                    }
                    return None;
                },
                Some(v) => {
                    es.push(v.0);
                },
            }
            i += 1;
        }
        Some(es)
    }

    /// Once a prefix of a list holds an element that is not constant, so does
    /// every longer prefix.
    pub proof fn lemma_values_stay_none<S: Fn(Request) -> Reply>(ms: Seq<ExprModel>, s: S, k: int, n: int)
        requires
            0 <= k <= n <= ms.len(),
            ExprModel::values(ms, s, k) is None,
        ensures
            ExprModel::values(ms, s, n) is None,
        decreases n - k,
    {
        if k < n {
            Self::lemma_values_stay_none(ms, s, k, n - 1);
        }
    }

    /// Evaluates the expression with the numeric service `service`.
    ///
    /// Returns `None` if the expression cannot be evaluated to a scalar
    /// constant.
    pub fn eval<S: Fn(Request) -> Reply>(&self, service: &S) -> (r: Option<(Enclosure, Option<Rational>)>)
        requires
            crate::service::serves(*service),
            self@.evaluable(*service),
        ensures
            constant_model(r) == self@.value(*service),
        decreases self,
    {
        match &self.kind {
            ExprKind::Constant(c) => {
                let exact = match &c.1 {
                    Some(q) => Some(q.duplicate()),
                    None => None,
                };
                Some((c.0, exact))
            },
            ExprKind::Unary(op, x) => match op.track() {
                Track::Exact => match x.eval(service) {
                    None => None,
                    Some(vx) => {
                        let ghost vs = seq![(vx.0, exact_model(vx.1))];
                        let mut operands: Vec<(Enclosure, Option<Rational>)> = Vec::new();
                        operands.push(vx);
                        assert(constant_models(operands@) =~= vs);
                        Some(apply_exact(service, Operation::Unary(*op), operands))
                    },
                },
                Track::Enclosure => match x.eval(service) {
                    None => None,
                    Some(vx) => {
                        let mut operands: Vec<Enclosure> = Vec::new();
                        operands.push(vx.0);
                        assert(operands@ =~= seq![vx.0]);
                        Some(apply_enclosure(service, Operation::Unary(*op), operands))
                    },
                },
                _ => None,
            },
            ExprKind::Binary(op, x, y) => match op.track() {
                Track::Exact => match x.eval(service) {
                    None => None,
                    Some(vx) => match y.eval(service) {
                        None => None,
                        Some(vy) => {
                            let ghost vs = seq![(vx.0, exact_model(vx.1)), (vy.0, exact_model(vy.1))];
                            let mut operands: Vec<(Enclosure, Option<Rational>)> = Vec::new();
                            operands.push(vx);
                            operands.push(vy);
                            assert(constant_models(operands@) =~= vs);
                            Some(apply_exact(service, Operation::Binary(*op), operands))
                        },
                    },
                },
                Track::Enclosure => match x.eval(service) {
                    None => None,
                    Some(vx) => match y.eval(service) {
                        None => None,
                        Some(vy) => {
                            let mut operands: Vec<Enclosure> = Vec::new();
                            operands.push(vx.0);
                            operands.push(vy.0);
                            assert(operands@ =~= seq![vx.0, vy.0]);
                            Some(apply_enclosure(service, Operation::Binary(*op), operands))
                        },
                    },
                },
                Track::Ranked => match &x.kind {
                    ExprKind::List(xs) => {
                        let ghost ms = Self::models(xs@);
                        proof {
                            Self::lemma_models(xs@);
                            assert(x@ == ExprModel::List(ms));
                            assert(x@->List_0 == ms);
                            assert forall|i: int|
                                0 <= i < xs.len() && ExprModel::values(ms, *service, i) is Some implies (
                            #[trigger] xs[i])@.evaluable(*service) by {
                                assert(ms[i] == xs[i]@);
                                assert(ms[i].evaluable(*service));
                            }
                            assert(decreases_to!(x.kind => x.kind->List_0));
                        }
                        match Self::eval_elements(xs, service) {
                            None => None,
                            Some(es) => match y.eval(service) {
                                None => None,
                                Some(vn) => {
                                    let mut operands = es;
                                    operands.push(vn.0);
                                    Some(apply_ranked(service, Operation::Binary(*op), operands))
                                },
                            },
                        }
                    },
                    _ => None,
                },
                _ => None,
            },
            ExprKind::Rootn(x, n) => match x.eval(service) {
                None => None,
                Some(vx) => {
                    let mut operands: Vec<Enclosure> = Vec::new();
                    operands.push(vx.0);
                    assert(operands@ =~= seq![vx.0]);
                    Some(apply_enclosure(service, Operation::Rootn(*n), operands))
                },
            },
            _ => None,
        }
    }
}

/// A list in which x or y occurs has an element that is not constant.
pub proof fn lemma_list_with_variables<S: Fn(Request) -> Reply>(xs: Seq<ExprModel>, s: S, n: int)
    requires
        0 <= n <= xs.len(),
        crate::ast::union_all(ExprModel::vars_of(xs), n).x || crate::ast::union_all(ExprModel::vars_of(xs), n).y,
    ensures
        ExprModel::values(xs, s, n) is None,
    decreases xs, n,
{
    if n > 0 {
        let rest = crate::ast::union_all(ExprModel::vars_of(xs), n - 1);
        if rest.x || rest.y {
            lemma_list_with_variables(xs, s, n - 1);
        } else {
            assert(ExprModel::vars_of(xs)[n - 1] == xs[n - 1].free_vars());
            lemma_variables_are_not_constant(xs[n - 1], s);
        }
    }
}

/// An expression in which x or y occurs does not evaluate to a constant,
/// whatever the numeric service.
pub proof fn lemma_variables_are_not_constant<S: Fn(Request) -> Reply>(m: ExprModel, s: S)
    requires
        m.free_vars().x || m.free_vars().y,
    ensures
        m.value(s) is None,
    decreases m,
{
    match m {
        ExprModel::Unary(_, x) => {
            lemma_variables_are_not_constant(*x, s);
        },
        ExprModel::Binary(op, x, y) => {
            if x.free_vars().x || x.free_vars().y {
                lemma_variables_are_not_constant(*x, s);
                match *x {
                    ExprModel::List(xs) => {
                        lemma_list_with_variables(xs, s, xs.len() as int);
                    },
                    _ => {},
                }
            } else {
                lemma_variables_are_not_constant(*y, s);
            }
        },
        ExprModel::Rootn(x, _) => {
            lemma_variables_are_not_constant(*x, s);
        },
        _ => {},
    }
}

} // verus!
