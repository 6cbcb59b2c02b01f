//! Expression trees and their metadata: the type of the value, the free
//! variables among x and y, and a structural hash. Equality and hash go by
//! the structure alone, whatever identifier and cache a node carries.

use crate::interval::Enclosure;
use crate::ops::{BinaryClass, BinaryOp, UnaryOp};
use crate::rational::{exact_model, Rational, RationalModel};
use crate::text::{append_decimal, append_signed_decimal, decimal, is_single, signed_decimal};
use vstd::prelude::*;
use vstd::std_specs::cmp::{PartialEqSpec, PartialEqSpecImpl};
use vstd::string::*;

verus! {

/// The identifier that a collaborator assigns to a node.
pub type ExprId = u32;

/// The identifier of a node that has none yet.
pub const UNINIT_EXPR_ID: ExprId = 0xffff_ffff;

/// The type of the value that an expression denotes.
#[derive(Clone, Copy, Debug, PartialEq, Eq, Structural)]
pub enum ValueType {
    Scalar,
    Vector,
    Boolean,
    Unknown,
}

/// A set of free variables: x or y.
#[derive(Clone, Copy, Debug, PartialEq, Eq, Hash, Structural)]
pub struct VarSet {
    pub x: bool,
    pub y: bool,
}

impl VarSet {
    /// The set without variables.
    pub fn empty() -> (r: VarSet)
        ensures
            r == (VarSet { x: false, y: false }),
    {
        VarSet { x: false, y: false }
    }

    /// The set `{x}`.
    pub fn only_x() -> (r: VarSet)
        ensures
            r == (VarSet { x: true, y: false }),
    {
        VarSet { x: true, y: false }
    }

    /// The set `{y}`.
    pub fn only_y() -> (r: VarSet)
        ensures
            r == (VarSet { x: false, y: true }),
    {
        VarSet { x: false, y: true }
    }

    /// The set `{x, y}`.
    pub fn both() -> (r: VarSet)
        ensures
            r == (VarSet { x: true, y: true }),
    {
        VarSet { x: true, y: true }
    }

    /// The union of two sets.
    pub open spec fn union_spec(self, other: VarSet) -> VarSet {
        VarSet { x: self.x || other.x, y: self.y || other.y }
    }

    /// The union of two sets.
    pub fn union(self, other: VarSet) -> (r: VarSet)
        ensures
            r == self.union_spec(other),
    {
        VarSet { x: self.x || other.x, y: self.y || other.y }
    }

    /// Whether the set has no variable.
    pub fn is_empty(&self) -> (r: bool)
        ensures
            r == (!self.x && !self.y),
    {
        !self.x && !self.y
    }

    /// The set as two bits: bit 0 for x, bit 1 for y.
    pub fn bits(&self) -> (r: u8)
        ensures
            r == (if self.x { 1u8 } else { 0u8 }) + (if self.y { 2u8 } else { 0u8 }),
    {
        let a: u8 = if self.x { 1 } else { 0 };
        let b: u8 = if self.y { 2 } else { 0 };
        a + b
    }
}

/// The shape of an expression node.
#[derive(Debug)]
pub enum ExprKind {
    Constant(Box<(Enclosure, Option<Rational>)>),
    Unary(UnaryOp, Box<Expr>),
    Binary(BinaryOp, Box<Expr>, Box<Expr>),
    Pown(Box<Expr>, i32),
    Rootn(Box<Expr>, u32),
    Var(String),
    List(Vec<Expr>),
    Uninit,
}

/// A node of an expression tree with its cached metadata.
#[derive(Debug)]
pub struct Expr {
    pub id: ExprId,
    pub kind: ExprKind,
    pub ty: ValueType,
    /// The set of the free variables in the expression.
    pub vars: VarSet,
    /// The structural hash of the expression.
    pub internal_hash: u64,
}

/// The structure of an expression: operator kinds and children, without
/// identifiers and cached metadata.
pub enum ExprModel {
    Constant(Enclosure, Option<RationalModel>),
    Unary(UnaryOp, Box<ExprModel>),
    Binary(BinaryOp, Box<ExprModel>, Box<ExprModel>),
    Pown(Box<ExprModel>, i32),
    Rootn(Box<ExprModel>, u32),
    Var(Seq<char>),
    List(Seq<ExprModel>),
    Uninit,
}

/// The type of a unary operation on an operand of type `t`.
pub open spec fn unary_type(op: UnaryOp, t: ValueType) -> ValueType {
    if op == UnaryOp::Not {
        if t == ValueType::Boolean {
            ValueType::Boolean
        } else {
            ValueType::Unknown
        }
    } else if t == ValueType::Scalar {
        ValueType::Scalar
    } else {
        ValueType::Unknown
    }
}

/// The type of a binary operation on operands of types `t` and `u`.
pub open spec fn binary_type(op: BinaryOp, t: ValueType, u: ValueType) -> ValueType {
    match op.class_spec() {
        BinaryClass::Scalar => if t == ValueType::Scalar && u == ValueType::Scalar {
            ValueType::Scalar
        } else {
            ValueType::Unknown
        },
        BinaryClass::Ranked => if t == ValueType::Vector && u == ValueType::Scalar {
            ValueType::Scalar
        } else {
            ValueType::Unknown
        },
        BinaryClass::Connective => if t == ValueType::Boolean && u == ValueType::Boolean {
            ValueType::Boolean
        } else {
            ValueType::Unknown
        },
        BinaryClass::Comparison => if t == ValueType::Scalar && u == ValueType::Scalar {
            ValueType::Boolean
        } else {
            ValueType::Unknown
        },
    }
}

/// The type of an integer power or root of an operand of type `t`.
pub open spec fn power_type(t: ValueType) -> ValueType {
    if t == ValueType::Scalar {
        ValueType::Scalar
    } else {
        ValueType::Unknown
    }
}

/// The type of a list whose elements have the types `ts`.
pub open spec fn list_type(ts: Seq<ValueType>) -> ValueType {
    if forall|i: int| 0 <= i < ts.len() ==> ts[i] == ValueType::Scalar {
        ValueType::Vector
    } else {
        ValueType::Unknown
    }
}

/// The type of a variable named `name`.
pub open spec fn var_type(name: Seq<char>) -> ValueType {
    if name == seq!['x'] || name == seq!['y'] {
        ValueType::Scalar
    } else {
        ValueType::Unknown
    }
}

/// The free variables of a variable named `name`.
pub open spec fn var_vars(name: Seq<char>) -> VarSet {
    VarSet { x: name == seq!['x'], y: name == seq!['y'] }
}

/// The union of the sets `vs[0..n]`.
pub open spec fn union_all(vs: Seq<VarSet>, n: int) -> VarSet
    decreases n,
{
    if n <= 0 {
        VarSet { x: false, y: false }
    } else {
        union_all(vs, n - 1).union_spec(vs[n - 1])
    }
}

/// One step of the structural hash: folds the word `v` into the state `h`.
pub open spec fn mix(h: u64, v: u64) -> u64 {
    (h ^ v).wrapping_mul(0x100_0000_01b3)
}

/// The hash state after folding the code points `s[0..n]` into `h`.
pub open spec fn mix_chars(h: u64, s: Seq<char>, n: int) -> u64
    decreases n,
{
    if n <= 0 {
        h
    } else {
        mix(mix_chars(h, s, n - 1), s[n - 1] as u64)
    }
}

/// The hash state after folding the words `s[0..n]` into `h`.
pub open spec fn mix_words(h: u64, s: Seq<u64>, n: int) -> u64
    decreases n,
{
    if n <= 0 {
        h
    } else {
        mix(mix_words(h, s, n - 1), s[n - 1])
    }
}

/// The number that stands for a decoration in the structural hash.
pub open spec fn decoration_code(d: crate::interval::Decoration) -> u64 {
    match d {
        crate::interval::Decoration::Ill => 0,
        crate::interval::Decoration::Trv => 4,
        crate::interval::Decoration::Def => 8,
        crate::interval::Decoration::Dac => 12,
        crate::interval::Decoration::Com => 16,
    }
}

/// The start state of the structural hash.
pub const HASH_SEED: u64 = 0xcbf2_9ce4_8422_2325;

/// The hash of a constant node.
pub open spec fn hash_constant(e: Enclosure) -> u64 {
    mix(mix(mix(mix(HASH_SEED, 1), e.interval.inf), e.interval.sup), decoration_code(e.decoration))
}

/// The hash of a unary node whose child has the hash `hx`.
pub open spec fn hash_unary(op: UnaryOp, hx: u64) -> u64 {
    mix(mix_chars(mix(HASH_SEED, 2), op.name_spec(), op.name_spec().len() as int), hx)
}

/// The hash of a binary node whose children have the hashes `hx` and `hy`.
pub open spec fn hash_binary(op: BinaryOp, hx: u64, hy: u64) -> u64 {
    mix(mix(mix_chars(mix(HASH_SEED, 3), op.name_spec(), op.name_spec().len() as int), hx), hy)
}

/// The hash of an integer power whose base has the hash `hx`.
pub open spec fn hash_pown(hx: u64, n: i32) -> u64 {
    mix(mix(mix(HASH_SEED, 4), hx), n as u32 as u64)
}

/// The hash of an integer root whose radicand has the hash `hx`.
pub open spec fn hash_rootn(hx: u64, n: u32) -> u64 {
    mix(mix(mix(HASH_SEED, 5), hx), n as u64)
}

/// The hash of a variable.
pub open spec fn hash_var(name: Seq<char>) -> u64 {
    mix_chars(mix(HASH_SEED, 6), name, name.len() as int)
}

/// The hash of a list whose elements have the hashes `hs`.
pub open spec fn hash_list(hs: Seq<u64>) -> u64 {
    mix_words(mix(HASH_SEED, 7), hs, hs.len() as int)
}

/// The hash of a node without content.
pub open spec fn hash_uninit() -> u64 {
    mix(HASH_SEED, 8)
}

impl ExprModel {
    /// The types of the structures `xs`.
    pub open spec fn types_of(xs: Seq<ExprModel>) -> Seq<ValueType>
        decreases xs,
    {
        Seq::new(xs.len(), |i: int| if 0 <= i < xs.len() { xs[i].value_type() } else { ValueType::Unknown })
    }

    /// The free variables of the structures `xs`.
    pub open spec fn vars_of(xs: Seq<ExprModel>) -> Seq<VarSet>
        decreases xs,
    {
        Seq::new(
            xs.len(),
            |i: int| if 0 <= i < xs.len() { xs[i].free_vars() } else { VarSet { x: false, y: false } },
        )
    }

    /// The hashes of the structures `xs`.
    pub open spec fn hashes_of(xs: Seq<ExprModel>) -> Seq<u64>
        decreases xs,
    {
        Seq::new(xs.len(), |i: int| if 0 <= i < xs.len() { xs[i].structural_hash() } else { 0 })
    }

    /// The type that the structure has when every node is typed by the rules.
    pub open spec fn value_type(self) -> ValueType
        decreases self,
    {
        match self {
            ExprModel::Constant(_, _) => ValueType::Scalar,
            ExprModel::Unary(op, x) => unary_type(op, x.value_type()),
            ExprModel::Binary(op, x, y) => binary_type(op, x.value_type(), y.value_type()),
            ExprModel::Pown(x, _) => power_type(x.value_type()),
            ExprModel::Rootn(x, _) => power_type(x.value_type()),
            ExprModel::Var(name) => var_type(name),
            ExprModel::List(xs) => list_type(Self::types_of(xs)),
            ExprModel::Uninit => ValueType::Unknown,
        }
    }

    /// The variables among x and y that occur in the structure.
    pub open spec fn free_vars(self) -> VarSet
        decreases self,
    {
        match self {
            ExprModel::Constant(_, _) => VarSet { x: false, y: false },
            ExprModel::Unary(_, x) => x.free_vars(),
            ExprModel::Binary(_, x, y) => x.free_vars().union_spec(y.free_vars()),
            ExprModel::Pown(x, _) => x.free_vars(),
            ExprModel::Rootn(x, _) => x.free_vars(),
            ExprModel::Var(name) => var_vars(name),
            ExprModel::List(xs) => union_all(Self::vars_of(xs), xs.len() as int),
            ExprModel::Uninit => VarSet { x: false, y: false },
        }
    }

    /// The hash of the structure.
    pub open spec fn structural_hash(self) -> u64
        decreases self,
    {
        match self {
            ExprModel::Constant(e, _) => hash_constant(e),
            ExprModel::Unary(op, x) => hash_unary(op, x.structural_hash()),
            ExprModel::Binary(op, x, y) => hash_binary(op, x.structural_hash(), y.structural_hash()),
            ExprModel::Pown(x, n) => hash_pown(x.structural_hash(), n),
            ExprModel::Rootn(x, n) => hash_rootn(x.structural_hash(), n),
            ExprModel::Var(name) => hash_var(name),
            ExprModel::List(xs) => hash_list(Self::hashes_of(xs)),
            ExprModel::Uninit => hash_uninit(),
        }
    }

    /// Whether no node of the structure is without content.
    pub open spec fn initialized(self) -> bool
        decreases self,
    {
        match self {
            ExprModel::Unary(_, x) => x.initialized(),
            ExprModel::Binary(_, x, y) => x.initialized() && y.initialized(),
            ExprModel::Pown(x, _) => x.initialized(),
            ExprModel::Rootn(x, _) => x.initialized(),
            ExprModel::List(xs) => forall|i: int| 0 <= i < xs.len() ==> (#[trigger] xs[i]).initialized(),
            ExprModel::Uninit => false,
            _ => true,
        }
    }

    /// `prefix` followed by the elements `xs[0..n]` of a list as they stand in
    /// a structure dump: each after a blank.
    pub open spec fn dump_elements_onto(prefix: Seq<char>, xs: Seq<ExprModel>, n: int) -> Seq<char>
        decreases xs, n,
    {
        if n <= 0 || n > xs.len() {
            prefix
        } else {
            xs[n - 1].dump_onto(Self::dump_elements_onto(prefix, xs, n - 1) + " "@)
        }
    }

    /// `prefix` followed by the canonical parenthesized text of the structure:
    /// the operator's name, then the children; a variable by its name; a
    /// constant as `@`.
    pub open spec fn dump_onto(self, prefix: Seq<char>) -> Seq<char>
        decreases self,
    {
        match self {
            ExprModel::Constant(_, _) => prefix + "@"@,
            ExprModel::Var(name) => prefix + name,
            ExprModel::Unary(op, x) => x.dump_onto(prefix + "("@ + op.name_spec() + " "@) + ")"@,
            ExprModel::Binary(op, x, y) => y.dump_onto(
                x.dump_onto(prefix + "("@ + op.name_spec() + " "@) + " "@,
            ) + ")"@,
            ExprModel::Pown(x, n) => x.dump_onto(prefix + "(Pown "@) + " "@ + signed_decimal(n as int)
                + ")"@,
            ExprModel::Rootn(x, n) => x.dump_onto(prefix + "(Rootn "@) + " "@ + decimal(n as nat) + ")"@,
            ExprModel::List(xs) => Self::dump_elements_onto(prefix + "(List"@, xs, xs.len() as int)
                + ")"@,
            ExprModel::Uninit => prefix,
        }
    }

    /// The canonical parenthesized text of the structure.
    pub open spec fn dump(self) -> Seq<char> {
        self.dump_onto(Seq::empty())
    }
}

impl Expr {
    /// The structures of the expressions `xs`.
    pub open spec fn models(xs: Seq<Expr>) -> Seq<ExprModel>
        decreases xs,
    {
        Seq::new(xs.len(), |i: int| if 0 <= i < xs.len() { xs[i].model() } else { ExprModel::Uninit })
    }

    /// The structure of the expression.
    pub open spec fn model(self) -> ExprModel
        decreases self,
    {
        match self.kind {
            ExprKind::Constant(c) => ExprModel::Constant(c.0, exact_model(c.1)),
            ExprKind::Unary(op, x) => ExprModel::Unary(op, Box::new(x.model())),
            ExprKind::Binary(op, x, y) => ExprModel::Binary(op, Box::new(x.model()), Box::new(y.model())),
            ExprKind::Pown(x, n) => ExprModel::Pown(Box::new(x.model()), n),
            ExprKind::Rootn(x, n) => ExprModel::Rootn(Box::new(x.model()), n),
            ExprKind::Var(name) => ExprModel::Var(name@),
            ExprKind::List(xs) => ExprModel::List(Self::models(xs@)),
            ExprKind::Uninit => ExprModel::Uninit,
        }
    }

    /// Whether the cached metadata of this node and of every node below it is
    /// what the structure determines.
    pub open spec fn annotated(self) -> bool
        decreases self,
    {
        &&& self.ty == self.model().value_type()
        &&& self.vars == self.model().free_vars()
        &&& self.internal_hash == self.model().structural_hash()
        &&& match self.kind {
            ExprKind::Unary(_, x) => x.annotated(),
            ExprKind::Binary(_, x, y) => x.annotated() && y.annotated(),
            ExprKind::Pown(x, _) => x.annotated(),
            ExprKind::Rootn(x, _) => x.annotated(),
            ExprKind::List(xs) => forall|i: int| 0 <= i < xs.len() ==> (#[trigger] xs[i]).annotated(),
            _ => true,
        }
    }
}

impl View for Expr {
    type V = ExprModel;

    open spec fn view(&self) -> ExprModel {
        self.model()
    }
}

/// Folds the word `v` into the hash state `h`.
pub fn mix_word(h: u64, v: u64) -> (r: u64)
    ensures
        r == mix(h, v),
{
    (h ^ v).wrapping_mul(0x100_0000_01b3)
}

/// Folds the code points of `s` into the hash state `h`.
pub fn mix_str(h: u64, s: &str) -> (r: u64)
    ensures
        r == mix_chars(h, s@, s@.len() as int),
{
    let n = s.unicode_len();
    let mut acc = h;
    let mut i: usize = 0;
    while i < n
        invariant
            n == s@.len(),
            0 <= i <= n,
            acc == mix_chars(h, s@, i as int),
        decreases n - i,
    {
        let c = s.get_char(i);
        acc = mix_word(acc, c as u32 as u64);
        i += 1;
    }
    acc
}

/// The number that stands for a decoration in the structural hash.
pub fn decoration_word(d: crate::interval::Decoration) -> (r: u64)
    ensures
        r == decoration_code(d),
{
    match d {
        crate::interval::Decoration::Ill => 0,
        crate::interval::Decoration::Trv => 4,
        crate::interval::Decoration::Def => 8,
        crate::interval::Decoration::Dac => 12,
        crate::interval::Decoration::Com => 16,
    }
}

impl Expr {
    /// A node of the given kind, with no identifier and no metadata.
    pub open spec fn new_spec(kind: ExprKind) -> Expr {
        Expr {
            id: UNINIT_EXPR_ID,
            kind,
            ty: ValueType::Unknown,
            vars: VarSet { x: false, y: false },
            internal_hash: 0,
        }
    }

    /// Creates a node of the given kind, with no identifier and no metadata.
    pub fn new(kind: ExprKind) -> (r: Expr)
        ensures
            r == Self::new_spec(kind),
    {
        Expr { id: UNINIT_EXPR_ID, kind, ty: ValueType::Unknown, vars: VarSet::empty(), internal_hash: 0 }
    }

    /// The cached types of the elements of a list.
    pub open spec fn element_types(xs: Seq<Expr>) -> Seq<ValueType> {
        Seq::new(xs.len(), |i: int| xs[i].ty)
    }

    /// The cached variable sets of the elements of a list.
    pub open spec fn element_vars(xs: Seq<Expr>) -> Seq<VarSet> {
        Seq::new(xs.len(), |i: int| xs[i].vars)
    }

    /// The cached hashes of the elements of a list.
    pub open spec fn element_hashes(xs: Seq<Expr>) -> Seq<u64> {
        Seq::new(xs.len(), |i: int| xs[i].internal_hash)
    }

    /// The type that the typing rules give the node when its children have the
    /// types that they cache.
    pub open spec fn shallow_type(self) -> ValueType {
        match self.kind {
            ExprKind::Constant(_) => ValueType::Scalar,
            ExprKind::Unary(op, x) => unary_type(op, x.ty),
            ExprKind::Binary(op, x, y) => binary_type(op, x.ty, y.ty),
            ExprKind::Pown(x, _) => power_type(x.ty),
            ExprKind::Rootn(x, _) => power_type(x.ty),
            ExprKind::Var(name) => var_type(name@),
            ExprKind::List(xs) => list_type(Self::element_types(xs@)),
            ExprKind::Uninit => ValueType::Unknown,
        }
    }

    /// The free variables of the node when its children have the sets that
    /// they cache.
    pub open spec fn shallow_vars(self) -> VarSet {
        match self.kind {
            ExprKind::Constant(_) => VarSet { x: false, y: false },
            ExprKind::Unary(_, x) => x.vars,
            ExprKind::Binary(_, x, y) => x.vars.union_spec(y.vars),
            ExprKind::Pown(x, _) => x.vars,
            ExprKind::Rootn(x, _) => x.vars,
            ExprKind::Var(name) => var_vars(name@),
            ExprKind::List(xs) => union_all(Self::element_vars(xs@), xs.len() as int),
            ExprKind::Uninit => VarSet { x: false, y: false },
        }
    }

    /// The structural hash of the node when its children have the hashes that
    /// they cache.
    pub open spec fn shallow_hash(self) -> u64 {
        match self.kind {
            ExprKind::Constant(c) => hash_constant(c.0),
            ExprKind::Unary(op, x) => hash_unary(op, x.internal_hash),
            ExprKind::Binary(op, x, y) => hash_binary(op, x.internal_hash, y.internal_hash),
            ExprKind::Pown(x, n) => hash_pown(x.internal_hash, n),
            ExprKind::Rootn(x, n) => hash_rootn(x.internal_hash, n),
            ExprKind::Var(name) => hash_var(name@),
            ExprKind::List(xs) => hash_list(Self::element_hashes(xs@)),
            ExprKind::Uninit => hash_uninit(),
        }
    }

    /// Whether the metadata of every node below this one is what the
    /// structure determines.
    pub open spec fn children_annotated(self) -> bool {
        match self.kind {
            ExprKind::Unary(_, x) => x.annotated(),
            ExprKind::Binary(_, x, y) => x.annotated() && y.annotated(),
            ExprKind::Pown(x, _) => x.annotated(),
            ExprKind::Rootn(x, _) => x.annotated(),
            ExprKind::List(xs) => forall|i: int| 0 <= i < xs.len() ==> (#[trigger] xs[i]).annotated(),
            _ => true,
        }
    }

    /// Every element of an initialized list is initialized.
    pub proof fn lemma_initialized_elements(ms: Seq<ExprModel>)
        requires
            ExprModel::List(ms).initialized(),
        ensures
            forall|j: int| 0 <= j < ms.len() ==> (#[trigger] ms[j]).initialized(),
    {
        assert(ExprModel::List(ms)->List_0 == ms);
    }

    /// The structures of a sequence of expressions, element by element.
    pub proof fn lemma_models(xs: Seq<Expr>)
        ensures
            Self::models(xs).len() == xs.len(),
            forall|i: int| 0 <= i < xs.len() ==> (#[trigger] Self::models(xs)[i]) == xs[i].model(),
    {
    }

    /// Where the children carry correct metadata, the rules applied to what
    /// they cache give what the structure determines.
    pub proof fn lemma_shallow_is_structural(self)
        requires
            self.children_annotated(),
        ensures
            self.shallow_type() == self@.value_type(),
            self.shallow_vars() == self@.free_vars(),
            self.shallow_hash() == self@.structural_hash(),
    {
        match self.kind {
            ExprKind::List(xs) => {
                let ms = self@->List_0;
                Self::lemma_models(xs@);
                assert(ms == Self::models(xs@));
                assert forall|i: int| 0 <= i < xs.len() implies ms[i] == xs[i]@ && xs[i].ty
                    == ms[i].value_type() && xs[i].vars == ms[i].free_vars() && xs[i].internal_hash
                    == ms[i].structural_hash() by {
                    assert(xs[i].annotated());
                }
                assert(Self::element_types(xs@) =~= ExprModel::types_of(ms));
                assert(Self::element_vars(xs@) =~= ExprModel::vars_of(ms));
                assert(Self::element_hashes(xs@) =~= ExprModel::hashes_of(ms));
            },
            _ => {},
        }
    }

    /// Infers the type of the node from the types that its children cache.
    pub fn value_type(&self) -> (r: ValueType)
        requires
            !(self.kind is Uninit),
        ensures
            r == self.shallow_type(),
    {
        match &self.kind {
            ExprKind::Constant(_) => ValueType::Scalar,
            ExprKind::Unary(op, x) => {
                if *op == UnaryOp::Not {
                    if x.ty == ValueType::Boolean {
                        ValueType::Boolean
                    } else {
                        ValueType::Unknown
                    }
                } else if x.ty == ValueType::Scalar {
                    ValueType::Scalar
                } else {
                    ValueType::Unknown
                }
            },
            ExprKind::Binary(op, x, y) => {
                match op.class() {
                    BinaryClass::Scalar => if x.ty == ValueType::Scalar && y.ty == ValueType::Scalar {
                        ValueType::Scalar
                    } else {
                        ValueType::Unknown
                    },
                    BinaryClass::Ranked => if x.ty == ValueType::Vector && y.ty == ValueType::Scalar {
                        ValueType::Scalar
                    } else {
                        ValueType::Unknown
                    },
                    BinaryClass::Connective => if x.ty == ValueType::Boolean && y.ty
                        == ValueType::Boolean {
                        ValueType::Boolean
                    } else {
                        ValueType::Unknown
                    },
                    BinaryClass::Comparison => if x.ty == ValueType::Scalar && y.ty
                        == ValueType::Scalar {
                        ValueType::Boolean
                    } else {
                        ValueType::Unknown
                    },
                }
            },
            ExprKind::Pown(x, _) => if x.ty == ValueType::Scalar {
                ValueType::Scalar
            } else {
                ValueType::Unknown
            },
            ExprKind::Rootn(x, _) => if x.ty == ValueType::Scalar {
                ValueType::Scalar
            } else {
                ValueType::Unknown
            },
            ExprKind::Var(name) => {
                if is_single(name.as_str(), 'x') || is_single(name.as_str(), 'y') {
                    ValueType::Scalar
                } else {
                    ValueType::Unknown
                }
            },
            ExprKind::List(xs) => {
                let mut i: usize = 0;
                while i < xs.len()
                    invariant
                        0 <= i <= xs.len(),
                        forall|j: int| 0 <= j < i ==> xs[j].ty == ValueType::Scalar,
                        self.kind == ExprKind::List(*xs),
                    decreases xs.len() - i,
                {
                    if xs[i].ty != ValueType::Scalar {
                        proof {
                            let ts = Self::element_types(xs@);
                            assert(ts[i as int] == xs[i as int].ty);
                            assert(!(forall|j: int| 0 <= j < ts.len() ==> ts[j] == ValueType::Scalar));
                        }
                        return ValueType::Unknown;
                    }
                    i += 1;
                }
                ValueType::Vector
            },
            ExprKind::Uninit => ValueType::Unknown,
        }
    }

    /// Collects the free variables of the node from the sets that its children
    /// cache.
    pub fn free_variables(&self) -> (r: VarSet)
        ensures
            r == self.shallow_vars(),
    {
        match &self.kind {
            ExprKind::Constant(_) => VarSet::empty(),
            ExprKind::Unary(_, x) => x.vars,
            ExprKind::Binary(_, x, y) => x.vars.union(y.vars),
            ExprKind::Pown(x, _) => x.vars,
            ExprKind::Rootn(x, _) => x.vars,
            ExprKind::Var(name) => VarSet {
                x: is_single(name.as_str(), 'x'),
                y: is_single(name.as_str(), 'y'),
            },
            ExprKind::List(xs) => {
                let mut acc = VarSet::empty();
                let mut i: usize = 0;
                while i < xs.len()
                    invariant
                        0 <= i <= xs.len(),
                        acc == union_all(Self::element_vars(xs@), i as int),
                    decreases xs.len() - i,
                {
                    acc = acc.union(xs[i].vars);
                    i += 1;
                }
                acc
            },
            ExprKind::Uninit => VarSet::empty(),
        }
    }

    /// Computes the structural hash of the node from the hashes that its
    /// children cache.
    pub fn structural_hash(&self) -> (r: u64)
        ensures
            r == self.shallow_hash(),
    {
        match &self.kind {
            ExprKind::Constant(c) => {
                let e = c.0;
                mix_word(
                    mix_word(mix_word(mix_word(HASH_SEED, 1), e.interval.inf), e.interval.sup),
                    decoration_word(e.decoration),
                )
            },
            ExprKind::Unary(op, x) => mix_word(mix_str(mix_word(HASH_SEED, 2), op.name()), x.internal_hash),
            ExprKind::Binary(op, x, y) => mix_word(
                mix_word(mix_str(mix_word(HASH_SEED, 3), op.name()), x.internal_hash),
                y.internal_hash,
            ),
            ExprKind::Pown(x, n) => mix_word(mix_word(mix_word(HASH_SEED, 4), x.internal_hash), *n as u32 as u64),
            ExprKind::Rootn(x, n) => mix_word(mix_word(mix_word(HASH_SEED, 5), x.internal_hash), *n as u64),
            ExprKind::Var(name) => mix_str(mix_word(HASH_SEED, 6), name.as_str()),
            ExprKind::List(xs) => {
                let mut acc = mix_word(HASH_SEED, 7);
                let mut i: usize = 0;
                while i < xs.len()
                    invariant
                        0 <= i <= xs.len(),
                        acc == mix_words(mix(HASH_SEED, 7), Self::element_hashes(xs@), i as int),
                    decreases xs.len() - i,
                {
                    acc = mix_word(acc, xs[i].internal_hash);
                    i += 1;
                }
                acc
            },
            ExprKind::Uninit => mix_word(HASH_SEED, 8),
        }
    }

    /// Updates the cached type, free variables and structural hash of the node
    /// from what its children cache.
    ///
    /// Where the children carry correct metadata, the node does so afterwards.
    pub fn update_metadata(&mut self)
        requires
            !(old(self).kind is Uninit),
        ensures
            final(self).id == old(self).id,
            final(self).kind == old(self).kind,
            final(self).ty == old(self).shallow_type(),
            final(self).vars == old(self).shallow_vars(),
            final(self).internal_hash == old(self).shallow_hash(),
            old(self).children_annotated() ==> final(self).annotated(),
    {
        let ty = self.value_type();
        let vars = self.free_variables();
        let hash = self.structural_hash();
        proof {
            if self.children_annotated() {
                self.lemma_shallow_is_structural();
            }
        }
        self.ty = ty;
        self.vars = vars;
        self.internal_hash = hash;
    }
}

/// Whether two optional rationals have the same content.
pub fn same_exact(a: &Option<Rational>, b: &Option<Rational>) -> (r: bool)
    ensures
        r == (exact_model(*a) == exact_model(*b)),
{
    match a {
        Some(p) => match b {
            Some(q) => p.same(q),
            None => false,
        },
        None => match b {
            Some(_) => false,
            None => true,
        },
    }
}

impl Expr {
    /// Whether two expressions have the same structure, whatever their
    /// identifiers and cached metadata.
    pub fn same(&self, other: &Expr) -> (r: bool)
        ensures
            r == (self@ == other@),
        decreases self,
    {
        match &self.kind {
            ExprKind::Constant(c) => match &other.kind {
                ExprKind::Constant(d) => c.0 == d.0 && same_exact(&c.1, &d.1),
                _ => false,
            },
            ExprKind::Unary(op, x) => match &other.kind {
                ExprKind::Unary(oq, y) => *op == *oq && x.same(y),
                _ => false,
            },
            ExprKind::Binary(op, x1, x2) => match &other.kind {
                ExprKind::Binary(oq, y1, y2) => *op == *oq && x1.same(y1) && x2.same(y2),
                _ => false,
            },
            ExprKind::Pown(x, n) => match &other.kind {
                ExprKind::Pown(y, m) => *n == *m && x.same(y),
                _ => false,
            },
            ExprKind::Rootn(x, n) => match &other.kind {
                ExprKind::Rootn(y, m) => *n == *m && x.same(y),
                _ => false,
            },
            ExprKind::Var(a) => match &other.kind {
                ExprKind::Var(b) => *a == *b,
                _ => false,
            },
            ExprKind::List(xs) => match &other.kind {
                ExprKind::List(ys) => {
                    proof {
                        Self::lemma_models(xs@);
                        Self::lemma_models(ys@);
                        assert(self@->List_0 == Self::models(xs@));
                        assert(other@->List_0 == Self::models(ys@));
                    }
                    if xs.len() != ys.len() {
                        assert(self@->List_0.len() != other@->List_0.len());
                        return false;
                    }
                    let mut i: usize = 0;
                    while i < xs.len()
                        invariant
                            xs.len() == ys.len(),
                            0 <= i <= xs.len(),
                            forall|j: int| 0 <= j < i ==> xs[j]@ == ys[j]@,
                            self.kind == ExprKind::List(*xs),
                            other.kind == ExprKind::List(*ys),
                            self@->List_0 == Self::models(xs@),
                            other@->List_0 == Self::models(ys@),
                            Self::models(xs@).len() == xs.len(),
                            Self::models(ys@).len() == ys.len(),
                            forall|j: int| 0 <= j < xs.len() ==> (#[trigger] Self::models(xs@)[j]) == xs[j].model(),
                            forall|j: int| 0 <= j < ys.len() ==> (#[trigger] Self::models(ys@)[j]) == ys[j].model(),
                        decreases xs.len() - i,
                    {
                        if !xs[i].same(&ys[i]) {
                            assert(self@->List_0[i as int] == xs[i as int]@);
                            assert(other@->List_0[i as int] == ys[i as int]@);
                            return false;
                        }
                        i += 1;
                    }
                    assert forall|j: int| 0 <= j < xs.len() implies self@->List_0[j] == other@->List_0[j] by {
                        assert(self@->List_0[j] == xs[j]@);
                        assert(other@->List_0[j] == ys[j]@);
                    }
                    assert(self@->List_0 =~= other@->List_0);
                    true
                },
                _ => false,
            },
            ExprKind::Uninit => match &other.kind {
                ExprKind::Uninit => true,
                _ => false,
            },
        }
    }

    /// Appends the elements of a list to `out` as they stand in a structure
    /// dump: each after a blank.
    pub fn dump_elements_into(xs: &Vec<Expr>, out: &mut String)
        requires
            forall|j: int| 0 <= j < xs.len() ==> (#[trigger] xs[j])@.initialized(),
        ensures
            final(out)@ == ExprModel::dump_elements_onto(old(out)@, Self::models(xs@), xs.len() as int),
        decreases xs,
    {
        let ghost ms = Self::models(xs@);
        let mut i: usize = 0;
        proof {
            Self::lemma_models(xs@);
        }
        while i < xs.len()
            invariant
                0 <= i <= xs.len(),
                ms == Self::models(xs@),
                ms.len() == xs.len(),
                forall|j: int| 0 <= j < xs.len() ==> (#[trigger] ms[j]) == xs[j].model(),
                forall|j: int| 0 <= j < xs.len() ==> (#[trigger] xs[j])@.initialized(),
                out@ == ExprModel::dump_elements_onto(old(out)@, ms, i as int),
            decreases xs.len() - i,
        {
            out.append(" ");
            assert(xs[i as int]@.initialized());
            assert(ms[i as int] == xs[i as int]@);
            xs[i].dump_into(out);
            i += 1;
        }
    }

    /// Appends the canonical parenthesized text of the expression to `out`.
    pub fn dump_into(&self, out: &mut String)
        requires
            self@.initialized(),
        ensures
            final(out)@ == self@.dump_onto(old(out)@),
        decreases self,
    {
        match &self.kind {
            ExprKind::Constant(_) => {
                out.append("@");
            },
            ExprKind::Var(name) => {
                out.append(name.as_str());
            },
            ExprKind::Unary(op, x) => {
                out.append("(");
                out.append(op.name());
                out.append(" ");
                x.dump_into(out);
                out.append(")");
            },
            ExprKind::Binary(op, x, y) => {
                out.append("(");
                out.append(op.name());
                out.append(" ");
                x.dump_into(out);
                out.append(" ");
                y.dump_into(out);
                out.append(")");
            },
            ExprKind::Pown(x, n) => {
                out.append("(Pown ");
                x.dump_into(out);
                out.append(" ");
                append_signed_decimal(out, *n as i64);
                out.append(")");
            },
            ExprKind::Rootn(x, n) => {
                out.append("(Rootn ");
                x.dump_into(out);
                out.append(" ");
                append_decimal(out, *n as u128);
                out.append(")");
            },
            ExprKind::List(xs) => {
                out.append("(List");
                let ghost ms = Self::models(xs@);
                proof {
                    Self::lemma_models(xs@);
                    assert(self@ == ExprModel::List(ms));
                    Self::lemma_initialized_elements(ms);
                }
                assert forall|j: int| 0 <= j < xs.len() implies (#[trigger] xs[j])@.initialized() by {
                    assert(ms[j] == xs[j]@);
                    assert(ms[j].initialized());
                }
                assert(decreases_to!(self.kind => self.kind->List_0));
                Self::dump_elements_into(xs, out);
                out.append(")");
            },
            ExprKind::Uninit => {},
        }
    }

    /// The canonical parenthesized text of the expression: the operator's
    /// name, then the children; a variable by its name; a constant as `@`.
    pub fn dump_structure(&self) -> (r: String)
        requires
            self@.initialized(),
        ensures
            r@ == self@.dump(),
    {
        let mut out = String::new();
        self.dump_into(&mut out);
        out
    }
}

impl Expr {
    /// A copy of the elements of a list, each with the same structure,
    /// identifier and metadata.
    pub fn duplicate_elements(xs: &Vec<Expr>) -> (r: Vec<Expr>)
        ensures
            r.len() == xs.len(),
            forall|i: int| 0 <= i < xs.len() ==> (#[trigger] r[i]).copies(xs[i]),
        decreases xs,
    {
        let mut out: Vec<Expr> = Vec::new();
        let mut i: usize = 0;
        while i < xs.len()
            invariant
                0 <= i <= xs.len(),
                out.len() == i,
                forall|j: int| 0 <= j < i ==> (#[trigger] out[j]).copies(xs[j]),
            decreases xs.len() - i,
        {
            let copy = xs[i].duplicate();
            out.push(copy);
            i += 1;
        }
        out
    }

    /// Whether `self` has the structure, the identifier and the metadata of
    /// `other`, and correct metadata throughout where `other` has.
    pub open spec fn copies(self, other: Expr) -> bool {
        &&& self@ == other@
        &&& self.id == other.id
        &&& self.ty == other.ty
        &&& self.vars == other.vars
        &&& self.internal_hash == other.internal_hash
        &&& other.annotated() ==> self.annotated()
    }

    /// A copy of the expression with the same structure, identifier and
    /// metadata.
    pub fn duplicate(&self) -> (r: Expr)
        ensures
            r.copies(*self),
        decreases self,
    {
        let kind = match &self.kind {
            ExprKind::Constant(c) => {
                let exact = match &c.1 {
                    Some(q) => Some(q.duplicate()),
                    None => None,
                };
                ExprKind::Constant(Box::new((c.0, exact)))
            },
            ExprKind::Unary(op, x) => ExprKind::Unary(*op, Box::new(x.duplicate())),
            ExprKind::Binary(op, x, y) => ExprKind::Binary(*op, Box::new(x.duplicate()), Box::new(y.duplicate())),
            ExprKind::Pown(x, n) => ExprKind::Pown(Box::new(x.duplicate()), *n),
            ExprKind::Rootn(x, n) => ExprKind::Rootn(Box::new(x.duplicate()), *n),
            ExprKind::Var(name) => ExprKind::Var(name.clone()),
            ExprKind::List(xs) => {
                assert(decreases_to!(self.kind => self.kind->List_0));
                let ys = Self::duplicate_elements(xs);
                proof {
                    Self::lemma_models(xs@);
                    Self::lemma_models(ys@);
                    assert(Self::models(ys@) =~= Self::models(xs@));
                }
                ExprKind::List(ys)
            },
            ExprKind::Uninit => ExprKind::Uninit,
        };
        Expr { id: self.id, kind, ty: self.ty, vars: self.vars, internal_hash: self.internal_hash }
    }
}

impl Clone for Expr {
    /// A copy of the expression with the same structure, identifier and
    /// metadata.
    fn clone(&self) -> (r: Expr)
        ensures
            r.copies(*self),
    {
        self.duplicate()
    }
}

impl Default for Expr {
    /// A node without content, identifier and metadata.
    fn default() -> (r: Expr)
        ensures
            r.id == UNINIT_EXPR_ID,
            r.kind is Uninit,
            r.ty == ValueType::Unknown,
            r.vars == (VarSet { x: false, y: false }),
            r.internal_hash == 0,
    {
        Expr {
            id: UNINIT_EXPR_ID,
            kind: ExprKind::Uninit,
            ty: ValueType::Unknown,
            vars: VarSet::empty(),
            internal_hash: 0,
        }
    }
}

impl PartialEq for Expr {
    fn eq(&self, other: &Expr) -> (r: bool) {
        self.same(other)
    }
}

impl Eq for Expr {

}

impl PartialEqSpecImpl for Expr {
    open spec fn obeys_eq_spec() -> bool {
        true
    }

    open spec fn eq_spec(&self, other: &Expr) -> bool {
        self@ == other@
    }
}

/// Nodes with the same structure are equal and, where both carry correct
/// metadata, have the same structural hash, whatever their identifiers;
/// nodes with different structure are unequal.
pub proof fn lemma_structural_congruence(a: Expr, b: Expr)
    ensures
        a@ == b@ ==> PartialEqSpec::eq_spec(&a, &b),
        a@ != b@ ==> !PartialEqSpec::eq_spec(&a, &b),
        a@ == b@ && a.annotated() && b.annotated() ==> a.internal_hash == b.internal_hash && a.ty
            == b.ty && a.vars == b.vars,
{
}

} // verus!
