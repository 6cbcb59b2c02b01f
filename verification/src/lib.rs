//! The symbolic and numeric core of a plotter of relations such as
//! `sin(x) >= 0 && x < 1`.
//!
//! A relation is parsed into a tree of expressions ([`parse`], [`grammar`]),
//! each node of which carries its type, its free variables and a structural
//! hash ([`ast`]). Constant expressions are evaluated on two tracks, exact
//! rationals and enclosures ([`eval`]); the arithmetic itself is asked of a
//! numeric service ([`service`]). Intervals with binary64 bounds are
//! converted to balls of a midpoint and a radius and back, rounded outwards
//! ([`interval`], [`arb`], [`float`]).

pub mod arb;
pub mod ast;
pub mod eval;
pub mod float;
pub mod grammar;
pub mod interval;
pub mod lex;
pub mod ops;
pub mod parse;
pub mod rational;
pub mod rel;
pub mod service;
pub mod text;
