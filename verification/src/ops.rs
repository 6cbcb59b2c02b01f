//! The operators of expressions, their names and how they are typed and
//! evaluated.

use vstd::prelude::*;

verus! {

/// Operators that take one operand.
#[derive(Clone, Copy, Debug, PartialEq, Eq, Hash, Structural)]
pub enum UnaryOp {
    Abs,
    Acos,
    Acosh,
    AiryAi,
    AiryAiPrime,
    AiryBi,
    AiryBiPrime,
    Asin,
    Asinh,
    Atan,
    Atanh,
    Ceil,
    Chi,
    Ci,
    Cos,
    Cosh,
    Digamma,
    Ei,
    Erf,
    Erfc,
    Erfi,
    Exp,
    Exp10,
    Exp2,
    Floor,
    FresnelC,
    FresnelS,
    Gamma,
    Li,
    Ln,
    Log10,
    Log2,
    Neg,
    Not,
    One,
    Recip,
    Shi,
    Si,
    Sign,
    Sin,
    Sinc,
    Sinh,
    Sqr,
    Sqrt,
    Tan,
    Tanh,
    UndefAt0,
}

/// Operators that take two operands.
#[derive(Clone, Copy, Debug, PartialEq, Eq, Hash, Structural)]
pub enum BinaryOp {
    Add,
    And,
    Atan2,
    BesselI,
    BesselJ,
    BesselK,
    BesselY,
    Div,
    Eq,
    GammaInc,
    Gcd,
    Ge,
    Gt,
    Lcm,
    Le,
    Log,
    Lt,
    Max,
    Min,
    Mod,
    Mul,
    Neq,
    Nge,
    Ngt,
    Nle,
    Nlt,
    Or,
    Pow,
    RankedMax,
    RankedMin,
    Sub,
}

/// How an operator treats exact rational operands.
#[derive(Clone, Copy, Debug, PartialEq, Eq, Structural)]
pub enum Track {
    /// The operator has an exact rational definition, which is tried first.
    Exact,
    /// The operator is evaluated on enclosures only.
    Enclosure,
    /// The operator selects a ranked element of a list.
    Ranked,
    /// The operator must have been rewritten away before evaluation.
    Rewritten,
    /// The operator does not yield a scalar constant.
    NotScalar,
}

impl UnaryOp {
    /// The operator's name as it appears in a structure dump.
    pub open spec fn name_spec(self) -> Seq<char> {
        match self {
            UnaryOp::Abs => "Abs"@,
            UnaryOp::Acos => "Acos"@,
            UnaryOp::Acosh => "Acosh"@,
            UnaryOp::AiryAi => "AiryAi"@,
            UnaryOp::AiryAiPrime => "AiryAiPrime"@,
            UnaryOp::AiryBi => "AiryBi"@,
            UnaryOp::AiryBiPrime => "AiryBiPrime"@,
            UnaryOp::Asin => "Asin"@,
            UnaryOp::Asinh => "Asinh"@,
            UnaryOp::Atan => "Atan"@,
            UnaryOp::Atanh => "Atanh"@,
            UnaryOp::Ceil => "Ceil"@,
            UnaryOp::Chi => "Chi"@,
            UnaryOp::Ci => "Ci"@,
            UnaryOp::Cos => "Cos"@,
            UnaryOp::Cosh => "Cosh"@,
            UnaryOp::Digamma => "Digamma"@,
            UnaryOp::Ei => "Ei"@,
            UnaryOp::Erf => "Erf"@,
            UnaryOp::Erfc => "Erfc"@,
            UnaryOp::Erfi => "Erfi"@,
            UnaryOp::Exp => "Exp"@,
            UnaryOp::Exp10 => "Exp10"@,
            UnaryOp::Exp2 => "Exp2"@,
            UnaryOp::Floor => "Floor"@,
            UnaryOp::FresnelC => "FresnelC"@,
            UnaryOp::FresnelS => "FresnelS"@,
            UnaryOp::Gamma => "Gamma"@,
            UnaryOp::Li => "Li"@,
            UnaryOp::Ln => "Ln"@,
            UnaryOp::Log10 => "Log10"@,
            UnaryOp::Log2 => "Log2"@,
            UnaryOp::Neg => "Neg"@,
            UnaryOp::Not => "Not"@,
            UnaryOp::One => "One"@,
            UnaryOp::Recip => "Recip"@,
            UnaryOp::Shi => "Shi"@,
            UnaryOp::Si => "Si"@,
            UnaryOp::Sign => "Sign"@,
            UnaryOp::Sin => "Sin"@,
            UnaryOp::Sinc => "Sinc"@,
            UnaryOp::Sinh => "Sinh"@,
            UnaryOp::Sqr => "Sqr"@,
            UnaryOp::Sqrt => "Sqrt"@,
            UnaryOp::Tan => "Tan"@,
            UnaryOp::Tanh => "Tanh"@,
            UnaryOp::UndefAt0 => "UndefAt0"@,
        }
    }

    /// The operator's name as it appears in a structure dump.
    pub fn name(&self) -> (r: &'static str)
        ensures
            r@ == self.name_spec(),
    {
        match self {
            UnaryOp::Abs => "Abs",
            UnaryOp::Acos => "Acos",
            UnaryOp::Acosh => "Acosh",
            UnaryOp::AiryAi => "AiryAi",
            UnaryOp::AiryAiPrime => "AiryAiPrime",
            UnaryOp::AiryBi => "AiryBi",
            UnaryOp::AiryBiPrime => "AiryBiPrime",
            UnaryOp::Asin => "Asin",
            UnaryOp::Asinh => "Asinh",
            UnaryOp::Atan => "Atan",
            UnaryOp::Atanh => "Atanh",
            UnaryOp::Ceil => "Ceil",
            UnaryOp::Chi => "Chi",
            UnaryOp::Ci => "Ci",
            UnaryOp::Cos => "Cos",
            UnaryOp::Cosh => "Cosh",
            UnaryOp::Digamma => "Digamma",
            UnaryOp::Ei => "Ei",
            UnaryOp::Erf => "Erf",
            UnaryOp::Erfc => "Erfc",
            UnaryOp::Erfi => "Erfi",
            UnaryOp::Exp => "Exp",
            UnaryOp::Exp10 => "Exp10",
            UnaryOp::Exp2 => "Exp2",
            UnaryOp::Floor => "Floor",
            UnaryOp::FresnelC => "FresnelC",
            UnaryOp::FresnelS => "FresnelS",
            UnaryOp::Gamma => "Gamma",
            UnaryOp::Li => "Li",
            UnaryOp::Ln => "Ln",
            UnaryOp::Log10 => "Log10",
            UnaryOp::Log2 => "Log2",
            UnaryOp::Neg => "Neg",
            UnaryOp::Not => "Not",
            UnaryOp::One => "One",
            UnaryOp::Recip => "Recip",
            UnaryOp::Shi => "Shi",
            UnaryOp::Si => "Si",
            UnaryOp::Sign => "Sign",
            UnaryOp::Sin => "Sin",
            UnaryOp::Sinc => "Sinc",
            UnaryOp::Sinh => "Sinh",
            UnaryOp::Sqr => "Sqr",
            UnaryOp::Sqrt => "Sqrt",
            UnaryOp::Tan => "Tan",
            UnaryOp::Tanh => "Tanh",
            UnaryOp::UndefAt0 => "UndefAt0",
        }
    }

    /// The evaluation track of the operator.
    pub open spec fn track_spec(self) -> Track {
        match self {
            UnaryOp::Abs | UnaryOp::Ceil | UnaryOp::Floor | UnaryOp::Neg | UnaryOp::Sqr => Track::Exact,
            UnaryOp::Exp10 | UnaryOp::Exp2 | UnaryOp::Recip => Track::Rewritten,
            UnaryOp::Not => Track::NotScalar,
            _ => Track::Enclosure,
        }
    }

    /// The evaluation track of the operator.
    pub fn track(&self) -> (r: Track)
        ensures
            r == self.track_spec(),
    {
        match self {
            UnaryOp::Abs | UnaryOp::Ceil | UnaryOp::Floor | UnaryOp::Neg | UnaryOp::Sqr => Track::Exact,
            UnaryOp::Exp10 | UnaryOp::Exp2 | UnaryOp::Recip => Track::Rewritten,
            UnaryOp::Not => Track::NotScalar,
            _ => Track::Enclosure,
        }
    }
}

/// What a binary operator expects of its operands and what it yields.
#[derive(Clone, Copy, Debug, PartialEq, Eq, Structural)]
pub enum BinaryClass {
    /// Two scalars to a scalar.
    Scalar,
    /// A vector and a scalar rank to a scalar.
    Ranked,
    /// Two booleans to a boolean.
    Connective,
    /// Two scalars to a boolean.
    Comparison,
}

impl BinaryOp {
    /// The operator's name as it appears in a structure dump.
    pub open spec fn name_spec(self) -> Seq<char> {
        match self {
            BinaryOp::Add => "Add"@,
            BinaryOp::And => "And"@,
            BinaryOp::Atan2 => "Atan2"@,
            BinaryOp::BesselI => "BesselI"@,
            BinaryOp::BesselJ => "BesselJ"@,
            BinaryOp::BesselK => "BesselK"@,
            BinaryOp::BesselY => "BesselY"@,
            BinaryOp::Div => "Div"@,
            BinaryOp::Eq => "Eq"@,
            BinaryOp::GammaInc => "GammaInc"@,
            BinaryOp::Gcd => "Gcd"@,
            BinaryOp::Ge => "Ge"@,
            BinaryOp::Gt => "Gt"@,
            BinaryOp::Lcm => "Lcm"@,
            BinaryOp::Le => "Le"@,
            BinaryOp::Log => "Log"@,
            BinaryOp::Lt => "Lt"@,
            BinaryOp::Max => "Max"@,
            BinaryOp::Min => "Min"@,
            BinaryOp::Mod => "Mod"@,
            BinaryOp::Mul => "Mul"@,
            BinaryOp::Neq => "Neq"@,
            BinaryOp::Nge => "Nge"@,
            BinaryOp::Ngt => "Ngt"@,
            BinaryOp::Nle => "Nle"@,
            BinaryOp::Nlt => "Nlt"@,
            BinaryOp::Or => "Or"@,
            BinaryOp::Pow => "Pow"@,
            BinaryOp::RankedMax => "RankedMax"@,
            BinaryOp::RankedMin => "RankedMin"@,
            BinaryOp::Sub => "Sub"@,
        }
    }

    /// The operator's name as it appears in a structure dump.
    pub fn name(&self) -> (r: &'static str)
        ensures
            r@ == self.name_spec(),
    {
        match self {
            BinaryOp::Add => "Add",
            BinaryOp::And => "And",
            BinaryOp::Atan2 => "Atan2",
            BinaryOp::BesselI => "BesselI",
            BinaryOp::BesselJ => "BesselJ",
            BinaryOp::BesselK => "BesselK",
            BinaryOp::BesselY => "BesselY",
            BinaryOp::Div => "Div",
            BinaryOp::Eq => "Eq",
            BinaryOp::GammaInc => "GammaInc",
            BinaryOp::Gcd => "Gcd",
            BinaryOp::Ge => "Ge",
            BinaryOp::Gt => "Gt",
            BinaryOp::Lcm => "Lcm",
            BinaryOp::Le => "Le",
            BinaryOp::Log => "Log",
            BinaryOp::Lt => "Lt",
            BinaryOp::Max => "Max",
            BinaryOp::Min => "Min",
            BinaryOp::Mod => "Mod",
            BinaryOp::Mul => "Mul",
            BinaryOp::Neq => "Neq",
            BinaryOp::Nge => "Nge",
            BinaryOp::Ngt => "Ngt",
            BinaryOp::Nle => "Nle",
            BinaryOp::Nlt => "Nlt",
            BinaryOp::Or => "Or",
            BinaryOp::Pow => "Pow",
            BinaryOp::RankedMax => "RankedMax",
            BinaryOp::RankedMin => "RankedMin",
            BinaryOp::Sub => "Sub",
        }
    }

    /// The typing class of the operator.
    pub open spec fn class_spec(self) -> BinaryClass {
        match self {
            BinaryOp::RankedMax | BinaryOp::RankedMin => BinaryClass::Ranked,
            BinaryOp::And | BinaryOp::Or => BinaryClass::Connective,
            BinaryOp::Eq | BinaryOp::Ge | BinaryOp::Gt | BinaryOp::Le | BinaryOp::Lt | BinaryOp::Neq
            | BinaryOp::Nge | BinaryOp::Ngt | BinaryOp::Nle | BinaryOp::Nlt => BinaryClass::Comparison,
            _ => BinaryClass::Scalar,
        }
    }

    /// The typing class of the operator.
    pub fn class(&self) -> (r: BinaryClass)
        ensures
            r == self.class_spec(),
    {
        match self {
            BinaryOp::RankedMax | BinaryOp::RankedMin => BinaryClass::Ranked,
            BinaryOp::And | BinaryOp::Or => BinaryClass::Connective,
            BinaryOp::Eq | BinaryOp::Ge | BinaryOp::Gt | BinaryOp::Le | BinaryOp::Lt | BinaryOp::Neq
            | BinaryOp::Nge | BinaryOp::Ngt | BinaryOp::Nle | BinaryOp::Nlt => BinaryClass::Comparison,
            _ => BinaryClass::Scalar,
        }
    }

    /// The evaluation track of the operator.
    pub open spec fn track_spec(self) -> Track {
        match self {
            BinaryOp::Add | BinaryOp::Div | BinaryOp::Gcd | BinaryOp::Lcm | BinaryOp::Max | BinaryOp::Min
            | BinaryOp::Mod | BinaryOp::Mul | BinaryOp::Pow | BinaryOp::Sub => Track::Exact,
            BinaryOp::Atan2 | BinaryOp::BesselI | BinaryOp::BesselJ | BinaryOp::BesselK
            | BinaryOp::BesselY | BinaryOp::GammaInc | BinaryOp::Log => Track::Enclosure,
            BinaryOp::RankedMax | BinaryOp::RankedMin => Track::Ranked,
            _ => Track::NotScalar,
        }
    }

    /// The evaluation track of the operator.
    pub fn track(&self) -> (r: Track)
        ensures
            r == self.track_spec(),
    {
        match self {
            BinaryOp::Add | BinaryOp::Div | BinaryOp::Gcd | BinaryOp::Lcm | BinaryOp::Max | BinaryOp::Min
            | BinaryOp::Mod | BinaryOp::Mul | BinaryOp::Pow | BinaryOp::Sub => Track::Exact,
            BinaryOp::Atan2 | BinaryOp::BesselI | BinaryOp::BesselJ | BinaryOp::BesselK
            | BinaryOp::BesselY | BinaryOp::GammaInc | BinaryOp::Log => Track::Enclosure,
            BinaryOp::RankedMax | BinaryOp::RankedMin => Track::Ranked,
            _ => Track::NotScalar,
        }
    }
}

} // verus!
