//! Statements of the abstract syntax tree.

use vstd::prelude::*;
use crate::expr::{expr_view, Expr, ExprV};
use crate::token::{Token, TokenV};

verus! {

/// A statement: evaluate and discard, evaluate and print, or declare a
/// variable with an optional initializer.
#[derive(Debug)]
pub enum Stmt {
    Expression(Expression),
    Print(Print),
    Var(Var),
}

/// An expression statement: the expression is evaluated for its effect and
/// the value is discarded.
#[derive(Debug)]
pub struct Expression {
    pub expression: Expr,
}

/// A print statement: the expression's value is rendered and emitted.
#[derive(Debug)]
pub struct Print {
    pub print_expression: Expr,
}

/// A variable declaration, with an optional initializer.
#[derive(Debug)]
pub struct Var {
    pub name: Token,
    pub initializer: Option<Expr>,
}

/// The mathematical image of a statement.
pub ghost enum StmtV {
    Expression { expression: ExprV },
    Print { expression: ExprV },
    Var { name: TokenV, initializer: Option<ExprV> },
}

impl View for Stmt {
    type V = StmtV;

    open spec fn view(&self) -> StmtV {
        match self {
            Stmt::Expression(s) => StmtV::Expression { expression: expr_view(s.expression) },
            Stmt::Print(s) => StmtV::Print { expression: expr_view(s.print_expression) },
            Stmt::Var(s) => StmtV::Var {
                name: s.name@,
                initializer: match &s.initializer {
                    Some(e) => Some(expr_view(*e)),
                    None => None,
                },
            },
        }
    }
}

impl DeepView for Stmt {
    type V = StmtV;

    open spec fn deep_view(&self) -> StmtV {
        self.view()
    }
}

} // verus!
