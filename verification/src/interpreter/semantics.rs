//! What a program means.
//!
//! The meaning is a relation, not a function: the numbers that arithmetic
//! yields and the text that a file holds are whatever the embedding program
//! answers, and nothing is assumed of its answers. [`evaluates`] relates an
//! expression to a possible outcome, [`executes`] and [`runs`] relate the
//! state before a statement, or a sequence of statements, to a possible state
//! after it.

use std::cmp::Ordering;
use vstd::prelude::*;
use super::environment::lookup;
use super::file_resolver::{clean_name, content_view, statement_stream};
use super::value::{answers, ValueView};
use crate::ast::expressions::ExprView;
use crate::ast::statements::StmtView;
use crate::logic::witness;
use crate::number::{Numeral, NumberOp};
use crate::errors::runtime_error::RuntimeErrorView;
use crate::syntax::token::{LiteralView, TokenType, TokenView};
use crate::text::quoted_text;

verus! {

/// The outcome of an evaluation: a value, or a runtime error.
pub type Outcome = Result<ValueView, RuntimeErrorView>;

/// The runtime error with the message `msg`, raised on line `line`.
pub open spec fn failure(line: usize, msg: Seq<char>) -> Outcome {
    Err(RuntimeErrorView { line, msg })
}

/// The outcome of an operator that yields a value or nothing, failing on
/// line `line` with `msg` where it yields nothing.
pub open spec fn computed(result: Option<ValueView>, line: usize, msg: Seq<char>) -> Outcome {
    match result {
        Some(value) => Ok(value),
        None => failure(line, msg),
    }
}

/// `out` is a possible value of the literal `value`.
pub open spec fn literal_value<N: Fn(NumberOp) -> u64>(
    value: LiteralView,
    numbers: N,
    out: Outcome,
) -> bool {
    match value {
        LiteralView::String(s) => out == Outcome::Ok(ValueView::String(s)),
        LiteralView::Number(text) => exists|numeral: Numeral, bits: u64|
            numeral@ == text && out == Outcome::Ok(ValueView::Number(bits)) && #[trigger] answers(
                numbers,
                NumberOp::Read(numeral),
                bits,
            ),
        LiteralView::Bool(b) => out == Outcome::Ok(ValueView::Bool(b)),
        LiteralView::Null => out == Outcome::Ok(ValueView::Null),
    }
}

/// The outcome of the prefix operator `operator` on `right`. An error is
/// raised on the line of the operator.
pub open spec fn unary_outcome(operator: TokenView, right: ValueView) -> Outcome {
    match operator.token_type {
        TokenType::Minus => computed(
            right.negation(),
            operator.line,
            "Invalid negation, can only negate type Number."@,
        ),
        TokenType::Bang => Ok(right.inverse()),
        _ => failure(operator.line, "Invalid unary operation"@),
    }
}

/// `out` is a possible outcome of the operator `operator` between `left` and
/// `right`. An error is raised on the line of the operator.
pub open spec fn binary_outcome<N: Fn(NumberOp) -> u64>(
    operator: TokenView,
    left: ValueView,
    right: ValueView,
    numbers: N,
    out: Outcome,
) -> bool {
    let line = operator.line;
    match operator.token_type {
        TokenType::Minus => exists|r: Option<ValueView>| #[trigger]
            left.difference(right, numbers, r) && out == computed(
                r,
                line,
                "Can only subtract type Number"@,
            ),
        TokenType::Plus => exists|r: Option<ValueView>| #[trigger]
            left.sum(right, numbers, r) && out == computed(
                r,
                line,
                "Can only add literals of same type. Supported types: Number, String"@,
            ),
        TokenType::Slash => exists|r: Option<ValueView>| #[trigger]
            left.quotient(right, numbers, r) && out == computed(r, line, "Division error."@),
        TokenType::Star => exists|r: Option<ValueView>| #[trigger]
            left.product(right, numbers, r) && out == computed(
                r,
                line,
                "Can only multiply type Number"@,
            ),
        TokenType::Greater => out == Outcome::Ok(
            ValueView::Bool(left.order(right) == Some(Ordering::Greater)),
        ),
        TokenType::GreaterEqual => out == Outcome::Ok(
            ValueView::Bool(
                left.order(right) == Some(Ordering::Greater) || left.order(right) == Some(
                    Ordering::Equal,
                ),
            ),
        ),
        TokenType::Less => out == Outcome::Ok(
            ValueView::Bool(left.order(right) == Some(Ordering::Less)),
        ),
        TokenType::LessEqual => out == Outcome::Ok(
            ValueView::Bool(
                left.order(right) == Some(Ordering::Less) || left.order(right) == Some(
                    Ordering::Equal,
                ),
            ),
        ),
        TokenType::EqualEqual => out == Outcome::Ok(ValueView::Bool(left.equals(right))),
        TokenType::BangEqual => out == Outcome::Ok(ValueView::Bool(!left.equals(right))),
        _ => out == failure(line, "dont have that feature yet"@),
    }
}

/// `out` is a possible outcome of `expr` where the variables are bound as in
/// `bindings`. Operands are evaluated from left to right, and the first error
/// is the outcome of the whole.
pub open spec fn evaluates<N: Fn(NumberOp) -> u64>(
    expr: ExprView,
    bindings: Map<Seq<char>, ValueView>,
    numbers: N,
    out: Outcome,
) -> bool
    decreases expr,
{
    match expr {
        ExprView::Literal { value } => literal_value(value, numbers, out),
        ExprView::Grouping { expression } => evaluates(*expression, bindings, numbers, out),
        ExprView::Unary { operator, right } => exists|r: Outcome| #[trigger]
            witness(r) && evaluates(*right, bindings, numbers, r) && match r {
                Ok(value) => out == unary_outcome(operator, value),
                Err(error) => out == Outcome::Err(error),
            },
        ExprView::Binary { left, operator, right } => exists|l: Outcome| #[trigger]
            witness(l) && evaluates(*left, bindings, numbers, l) && match l {
                Ok(a) => exists|r: Outcome| #[trigger]
                    witness(r) && evaluates(*right, bindings, numbers, r) && match r {
                        Ok(b) => binary_outcome(operator, a, b, numbers, out),
                        Err(error) => out == Outcome::Err(error),
                    },
                Err(error) => out == Outcome::Err(error),
            },
        ExprView::Variable { name } => out == computed(
            lookup(bindings, name.lexeme),
            name.line,
            "Undefined variable"@,
        ),
    }
}

/// The state of a running program.
pub struct State {
    /// The variables and their values.
    pub bindings: Map<Seq<char>, ValueView>,
    /// What the program has shown so far: the values printed and the errors
    /// reported, in order.
    pub output: Seq<Outcome>,
}

impl State {
    /// The state of a program that has not started.
    pub open spec fn start() -> State {
        State { bindings: Map::empty(), output: Seq::empty() }
    }

    /// The state after `outcome` was shown.
    pub open spec fn shows(self, outcome: Outcome) -> State {
        State { bindings: self.bindings, output: self.output.push(outcome) }
    }

    /// The state after `name` was bound to `value`.
    pub open spec fn binds(self, name: Seq<char>, value: ValueView) -> State {
        State { bindings: self.bindings.insert(name, value), output: self.output }
    }
}

/// The error for an import that failed: it names the file as it was written,
/// between quotes of its own.
pub open spec fn import_failure(file_name: Seq<char>, line: usize) -> Outcome {
    failure(line, "Could not resolve file import: "@ + quoted_text(file_name))
}

/// `after` is a possible state after `stmt` was executed in `before`, where
/// imports may nest `depth` deep.
///
/// An expression statement changes nothing unless it fails; a print
/// statement shows its value; a declaration binds its name. Whatever fails is
/// reported, changes nothing else, and the program goes on. An import runs
/// the statements of the file in the same state; it fails where the file
/// cannot be read, holds a lexical error, or would nest deeper than `depth`.
pub open spec fn executes<N: Fn(NumberOp) -> u64, R: Fn(String) -> Option<String>>(
    stmt: StmtView,
    numbers: N,
    read: R,
    depth: nat,
    before: State,
    after: State,
) -> bool
    decreases depth, 0nat,
{
    match stmt {
        StmtView::Expression { expression } => exists|r: Outcome| #[trigger]
            evaluates(expression, before.bindings, numbers, r) && after == match r {
                Ok(_) => before,
                Err(error) => before.shows(Err(error)),
            },
        StmtView::Print { expression } => exists|r: Outcome| #[trigger]
            evaluates(expression, before.bindings, numbers, r) && after == before.shows(r),
        StmtView::Let { name, initialiser } => exists|r: Outcome| #[trigger]
            evaluates(initialiser, before.bindings, numbers, r) && after == match r {
                Ok(value) => before.binds(name.lexeme, value),
                Err(error) => before.shows(Err(error)),
            },
        StmtView::Import { file_name, line } => if depth == 0 {
            after == before.shows(import_failure(file_name, line))
        } else {
            exists|name: String, content: Option<String>|
                name@ == clean_name(file_name) && #[trigger] call_ensures(read, (name,), content)
                    && match statement_stream(content_view(content)) {
                    Ok(statements) => runs(
                        statements,
                        numbers,
                        read,
                        (depth - 1) as nat,
                        before,
                        after,
                    ),
                    Err(_) => after == before.shows(import_failure(file_name, line)),
                }
        },
    }
}

/// `after` is a possible state after `statements` were executed in order,
/// starting in `before`.
pub open spec fn runs<N: Fn(NumberOp) -> u64, R: Fn(String) -> Option<String>>(
    statements: Seq<StmtView>,
    numbers: N,
    read: R,
    depth: nat,
    before: State,
    after: State,
) -> bool
    decreases depth, statements.len() + 1,
{
    if statements.len() == 0 {
        after == before
    } else {
        exists|mid: State| #[trigger]
            witness(mid) && runs(statements.drop_last(), numbers, read, depth, before, mid)
                && executes(statements.last(), numbers, read, depth, mid, after)
    }
}

} // verus!
