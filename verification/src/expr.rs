//! Expressions of the abstract syntax tree, and the runtime values that
//! literal leaves and evaluation produce.

use vstd::prelude::*;
use crate::numbits::{spec_is_nan, spec_num_eq};
use crate::token::{Token, TokenV};

verus! {

/// A runtime value: one of the four Lox value kinds. A number is carried as
/// the 64-bit pattern of an IEEE-754 double (see [`crate::numbits`]).
#[derive(Debug)]
pub enum LiteralRepresentations {
    CustomBoolean { val: bool },
    CustomNil,
    CustomNumber { val: u64 },
    CustomString { val: String },
}

/// The mathematical image of a runtime value.
pub ghost enum LiteralV {
    Boolean(bool),
    Nil,
    Number(u64),
    Str(Seq<char>),
}

impl View for LiteralRepresentations {
    type V = LiteralV;

    open spec fn view(&self) -> LiteralV {
        match self {
            LiteralRepresentations::CustomBoolean { val } => LiteralV::Boolean(*val),
            LiteralRepresentations::CustomNil => LiteralV::Nil,
            LiteralRepresentations::CustomNumber { val } => LiteralV::Number(*val),
            LiteralRepresentations::CustomString { val } => LiteralV::Str(val@),
        }
    }
}

impl Clone for LiteralRepresentations {
    fn clone(&self) -> (r: Self)
        ensures
            r == *self,
    {
        match self {
            LiteralRepresentations::CustomBoolean { val } => LiteralRepresentations::CustomBoolean {
                val: *val,
            },
            LiteralRepresentations::CustomNil => LiteralRepresentations::CustomNil,
            LiteralRepresentations::CustomNumber { val } => LiteralRepresentations::CustomNumber {
                val: *val,
            },
            LiteralRepresentations::CustomString { val } => LiteralRepresentations::CustomString {
                val: val.clone(),
            },
        }
    }
}

/// A literal expression's payload, on its own.
#[derive(Debug)]
pub struct Literal {
    pub literal: LiteralRepresentations,
}

/// An expression of the syntax tree. `FailScenario` stands where the parser
/// met a token that starts no expression; evaluating it is a runtime fault.
#[derive(Debug)]
pub enum Expr {
    Binary { left: Box<Expr>, operator: Token, right: Box<Expr> },
    Unary { operator: Token, right: Box<Expr> },
    Literal { literal: LiteralRepresentations },
    Grouping { expr: Box<Expr> },
    Variable { name: Token },
    FailScenario { reason: String },
}

/// The mathematical image of an expression. Children sit in `sub`: two for a
/// binary node (left, then right), one for a unary node or a grouping.
pub ghost enum ExprV {
    Binary { operator: TokenV, sub: Seq<ExprV> },
    Unary { operator: TokenV, sub: Seq<ExprV> },
    Literal { literal: LiteralV },
    Grouping { sub: Seq<ExprV> },
    Variable { name: TokenV },
    FailScenario { reason: Seq<char> },
}

/// The image of an expression tree.
pub open spec fn expr_view(e: Expr) -> ExprV
    decreases e,
{
    match e {
        Expr::Binary { left, operator, right } => ExprV::Binary {
            operator: operator@,
            sub: seq![expr_view(*left), expr_view(*right)],
        },
        Expr::Unary { operator, right } => ExprV::Unary {
            operator: operator@,
            sub: seq![expr_view(*right)],
        },
        Expr::Literal { literal } => ExprV::Literal { literal: literal@ },
        Expr::Grouping { expr } => ExprV::Grouping { sub: seq![expr_view(*expr)] },
        Expr::Variable { name } => ExprV::Variable { name: name@ },
        Expr::FailScenario { reason } => ExprV::FailScenario { reason: reason@ },
    }
}

impl View for Expr {
    type V = ExprV;

    open spec fn view(&self) -> ExprV {
        expr_view(*self)
    }
}

impl DeepView for Expr {
    type V = ExprV;

    open spec fn deep_view(&self) -> ExprV {
        expr_view(*self)
    }
}

/// Whether a value counts as true: everything but nil and `false` does. In
/// particular every number (zero and NaN included) and every string (the
/// empty one included) counts as true.
pub open spec fn spec_truthy(v: LiteralV) -> bool {
    match v {
        LiteralV::Nil => false,
        LiteralV::Boolean(b) => b,
        _ => true,
    }
}

/// Lox equality of two values. Values of different kinds are unequal, nil
/// equals only nil, and numbers follow IEEE-754 equality, so a NaN is equal
/// to nothing, itself included.
pub open spec fn spec_equals(a: LiteralV, b: LiteralV) -> bool {
    match (a, b) {
        (LiteralV::Nil, LiteralV::Nil) => true,
        (LiteralV::Boolean(l), LiteralV::Boolean(r)) => l == r,
        (LiteralV::Number(l), LiteralV::Number(r)) => spec_num_eq(l, r),
        (LiteralV::Str(l), LiteralV::Str(r)) => l == r,
        _ => false,
    }
}

/// Whether a value is a NaN number, the one value that does not equal itself.
pub open spec fn spec_is_nan_value(v: LiteralV) -> bool {
    match v {
        LiteralV::Number(b) => spec_is_nan(b),
        _ => false,
    }
}

/// Equality of values is symmetric.
pub proof fn lemma_equals_symmetric(a: LiteralV, b: LiteralV)
    ensures
        spec_equals(a, b) == spec_equals(b, a),
{
}

/// Every boolean, string, nil, and non-NaN number equals itself.
pub proof fn lemma_equals_reflexive(v: LiteralV)
    requires
        !spec_is_nan_value(v),
    ensures
        spec_equals(v, v),
{
}

/// A value counts as true exactly when it equals neither nil nor `false`.
pub proof fn lemma_truthy_law(v: LiteralV)
    ensures
        spec_truthy(v) == (!spec_equals(v, LiteralV::Nil) && !spec_equals(
            v,
            LiteralV::Boolean(false),
        )),
{
}

} // verus!
