//! Expressions.

use vstd::prelude::*;
use crate::syntax::token::Literal as TokenLiteral;
use crate::syntax::token::LiteralView;
use crate::syntax::token::{Token, TokenView};

verus! {

/// An expression: a tree whose inner nodes own their operands.
#[derive(Debug)]
pub enum Expr {
    Binary(Binary),
    Grouping(Grouping),
    Literal(Literal),
    Unary(Unary),
    Variable(Variable),
}

/// Two operands joined by an operator.
#[derive(Debug)]
pub struct Binary {
    pub left: Box<Expr>,
    pub operator: Token,
    pub right: Box<Expr>,
}

/// An expression in parentheses.
#[derive(Debug)]
pub struct Grouping {
    pub expression: Box<Expr>,
}

/// A literal value.
#[derive(Debug)]
pub struct Literal {
    pub value: TokenLiteral,
}

/// A prefix operator and its operand.
#[derive(Debug)]
pub struct Unary {
    pub operator: Token,
    pub right: Box<Expr>,
}

/// A reference to a variable.
#[derive(Debug)]
pub struct Variable {
    pub name: Token,
}

/// What an [`Expr`] holds, as plain values.
pub enum ExprView {
    Binary { left: Box<ExprView>, operator: TokenView, right: Box<ExprView> },
    Grouping { expression: Box<ExprView> },
    Literal { value: LiteralView },
    Unary { operator: TokenView, right: Box<ExprView> },
    Variable { name: TokenView },
}

impl View for Expr {
    type V = ExprView;

    open spec fn view(&self) -> ExprView
        decreases self,
    {
        match self {
            Expr::Binary(b) => ExprView::Binary {
                left: Box::new((*b.left).view()),
                operator: b.operator@,
                right: Box::new((*b.right).view()),
            },
            Expr::Grouping(g) => ExprView::Grouping {
                expression: Box::new((*g.expression).view()),
            },
            Expr::Literal(l) => ExprView::Literal { value: l.value@ },
            Expr::Unary(u) => ExprView::Unary {
                operator: u.operator@,
                right: Box::new((*u.right).view()),
            },
            Expr::Variable(v) => ExprView::Variable { name: v.name@ },
        }
    }
}

/// The literal that stands for an absent value.
pub open spec fn null_literal() -> ExprView {
    ExprView::Literal { value: LiteralView::Null }
}

} // verus!
