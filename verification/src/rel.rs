//! Relation trees: comparisons of expressions, joined by `&&` and `||`.

use crate::ast::{Expr, ExprModel};
use vstd::prelude::*;

verus! {

/// The comparison of an atomic relation.
#[derive(Clone, Copy, Debug, PartialEq, Eq, Hash, Structural)]
pub enum RelOp {
    Eq,
    Ge,
    Gt,
    Le,
    Lt,
}

/// The shape of a relation node.
#[derive(Debug)]
pub enum RelKind {
    Atomic(RelOp, Box<Expr>, Box<Expr>),
    And(Box<Rel>, Box<Rel>),
    Or(Box<Rel>, Box<Rel>),
}

/// A node of a relation tree.
#[derive(Debug)]
pub struct Rel {
    pub kind: RelKind,
}

/// The structure of a relation.
pub enum RelModel {
    Atomic(RelOp, ExprModel, ExprModel),
    And(Box<RelModel>, Box<RelModel>),
    Or(Box<RelModel>, Box<RelModel>),
}

impl Rel {
    /// Creates a node of the given kind.
    pub fn new(kind: RelKind) -> (r: Rel)
        ensures
            r.kind == kind,
    {
        Rel { kind }
    }

    /// The structure of the relation.
    pub open spec fn model(self) -> RelModel
        decreases self,
    {
        match self.kind {
            RelKind::Atomic(op, x, y) => RelModel::Atomic(op, x@, y@),
            RelKind::And(x, y) => RelModel::And(Box::new(x.model()), Box::new(y.model())),
            RelKind::Or(x, y) => RelModel::Or(Box::new(x.model()), Box::new(y.model())),
        }
    }

    /// Whether every expression of the relation carries the metadata that its
    /// structure determines.
    pub open spec fn annotated(self) -> bool
        decreases self,
    {
        match self.kind {
            RelKind::Atomic(_, x, y) => x.annotated() && y.annotated(),
            RelKind::And(x, y) => x.annotated() && y.annotated(),
            RelKind::Or(x, y) => x.annotated() && y.annotated(),
        }
    }
}

impl Rel {
    /// A copy of the relation with the same structure, and with correct
    /// metadata throughout where the relation has.
    pub fn duplicate(&self) -> (r: Rel)
        ensures
            r@ == self@,
            self.annotated() ==> r.annotated(),
        decreases self,
    {
        let kind = match &self.kind {
            RelKind::Atomic(op, x, y) => RelKind::Atomic(*op, Box::new(x.duplicate()), Box::new(y.duplicate())),
            RelKind::And(x, y) => RelKind::And(Box::new(x.duplicate()), Box::new(y.duplicate())),
            RelKind::Or(x, y) => RelKind::Or(Box::new(x.duplicate()), Box::new(y.duplicate())),
        };
        Rel { kind }
    }
}

impl Clone for Rel {
    /// A copy of the relation with the same structure.
    fn clone(&self) -> (r: Rel)
        ensures
            r@ == self@,
            self.annotated() ==> r.annotated(),
    {
        self.duplicate()
    }
}

impl View for Rel {
    type V = RelModel;

    open spec fn view(&self) -> RelModel {
        self.model()
    }
}

} // verus!
