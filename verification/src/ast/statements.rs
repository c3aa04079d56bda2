//! Statements.

use vstd::prelude::*;
use super::expressions::{Expr, ExprView};
use crate::syntax::token::{Token, TokenView};

verus! {

/// A statement.
#[derive(Debug)]
pub enum Stmt {
    Expression(Expression),
    Print(Print),
    Let(Let),
    Import(Import),
}

/// An expression evaluated for its own sake.
#[derive(Debug)]
pub struct Expression {
    pub expression: Expr,
}

/// An expression whose value is shown.
#[derive(Debug)]
pub struct Print {
    pub expression: Expr,
}

/// The declaration of a variable.
#[derive(Debug)]
pub struct Let {
    pub name: Token,
    pub initialiser: Expr,
}

/// The inclusion of another file, named as it was written: with its quotes.
/// The line is that of the file name.
#[derive(Debug)]
pub struct Import {
    pub file_name: String,
    pub line: usize,
}

/// What a [`Stmt`] holds, as plain values.
pub enum StmtView {
    Expression { expression: ExprView },
    Print { expression: ExprView },
    Let { name: TokenView, initialiser: ExprView },
    Import { file_name: Seq<char>, line: usize },
}

impl View for Stmt {
    type V = StmtView;

    open spec fn view(&self) -> StmtView {
        match self {
            Stmt::Expression(s) => StmtView::Expression { expression: s.expression@ },
            Stmt::Print(s) => StmtView::Print { expression: s.expression@ },
            Stmt::Let(s) => StmtView::Let { name: s.name@, initialiser: s.initialiser@ },
            Stmt::Import(s) => StmtView::Import { file_name: s.file_name@, line: s.line },
        }
    }
}

/// The statements of `statements`, as plain values.
pub open spec fn stmt_views(statements: Seq<Stmt>) -> Seq<StmtView> {
    statements.map_values(|s: Stmt| s@)
}

} // verus!
