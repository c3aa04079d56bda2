//! Where the embedding program answers as a function, a program has one
//! meaning.
//!
//! The relations of [`super::semantics`] admit every answer of the embedding
//! program. The lemmas here show that nothing else is left open: once each
//! request has a single answer, an expression has a single outcome and a
//! program a single final state.

use vstd::prelude::*;
use super::file_resolver::{clean_name, content_view, statement_stream};
use super::semantics::{
    binary_outcome,
    computed,
    evaluates,
    executes,
    import_failure,
    literal_value,
    runs,
    unary_outcome,
    Outcome,
    State,
};
use super::value::{answers, ValueView};
use crate::ast::expressions::ExprView;
use crate::ast::statements::StmtView;
use crate::logic::witness;
use crate::number::{Numeral, NumberOp};
use crate::syntax::token::{LiteralView, TokenType, TokenView};

verus! {

/// The arithmetic has at most one answer to every request, and reads a
/// numeral by its text alone.
pub open spec fn single_valued<N: Fn(NumberOp) -> u64>(numbers: N) -> bool {
    &&& forall|op: NumberOp, a: u64, b: u64|
        #![trigger answers(numbers, op, a), answers(numbers, op, b)]
        answers(numbers, op, a) && answers(numbers, op, b) ==> a == b
    &&& forall|m: Numeral, n: Numeral, a: u64, b: u64|
        #![trigger answers(numbers, NumberOp::Read(m), a), answers(numbers, NumberOp::Read(n), b)]
        m@ == n@ && answers(numbers, NumberOp::Read(m), a) && answers(numbers, NumberOp::Read(n), b)
            ==> a == b
}

/// The reader gives at most one text for every name.
pub open spec fn single_text<R: Fn(String) -> Option<String>>(read: R) -> bool {
    forall|m: String, n: String, a: Option<String>, b: Option<String>|
        #![trigger call_ensures(read, (m,), a), call_ensures(read, (n,), b)]
        m@ == n@ && call_ensures(read, (m,), a) && call_ensures(read, (n,), b) ==> content_view(a)
            == content_view(b)
}

/// A literal has one value.
pub proof fn literal_is_determined<N: Fn(NumberOp) -> u64>(
    value: LiteralView,
    numbers: N,
    first: Outcome,
    second: Outcome,
)
    requires
        single_valued(numbers),
        literal_value(value, numbers, first),
        literal_value(value, numbers, second),
    ensures
        first == second,
{
    if let LiteralView::Number(text) = value {
        let (m, a) = choose|m: Numeral, a: u64|
            m@ == text && first == Outcome::Ok(ValueView::Number(a)) && #[trigger] answers(
                numbers,
                NumberOp::Read(m),
                a,
            );
        let (n, b) = choose|n: Numeral, b: u64|
            n@ == text && second == Outcome::Ok(ValueView::Number(b)) && #[trigger] answers(
                numbers,
                NumberOp::Read(n),
                b,
            );
        assert(a == b);
    }
}

/// An operator between two values has one outcome.
pub proof fn operator_is_determined<N: Fn(NumberOp) -> u64>(
    operator: TokenView,
    left: ValueView,
    right: ValueView,
    numbers: N,
    first: Outcome,
    second: Outcome,
)
    requires
        single_valued(numbers),
        binary_outcome(operator, left, right, numbers, first),
        binary_outcome(operator, left, right, numbers, second),
    ensures
        first == second,
{
    let line = operator.line;
    match operator.token_type {
        TokenType::Minus => {
            let msg = "Can only subtract type Number"@;
            let r1 = choose|r: Option<ValueView>| #[trigger]
                left.difference(right, numbers, r) && first == computed(r, line, msg);
            let r2 = choose|r: Option<ValueView>| #[trigger]
                left.difference(right, numbers, r) && second == computed(r, line, msg);
            assert(r1 == r2);
        },
        TokenType::Plus => {
            let msg = "Can only add literals of same type. Supported types: Number, String"@;
            let r1 = choose|r: Option<ValueView>| #[trigger]
                left.sum(right, numbers, r) && first == computed(r, line, msg);
            let r2 = choose|r: Option<ValueView>| #[trigger]
                left.sum(right, numbers, r) && second == computed(r, line, msg);
            assert(r1 == r2);
        },
        TokenType::Slash => {
            let msg = "Division error."@;
            let r1 = choose|r: Option<ValueView>| #[trigger]
                left.quotient(right, numbers, r) && first == computed(r, line, msg);
            let r2 = choose|r: Option<ValueView>| #[trigger]
                left.quotient(right, numbers, r) && second == computed(r, line, msg);
            assert(r1 == r2);
        },
        TokenType::Star => {
            let msg = "Can only multiply type Number"@;
            let r1 = choose|r: Option<ValueView>| #[trigger]
                left.product(right, numbers, r) && first == computed(r, line, msg);
            let r2 = choose|r: Option<ValueView>| #[trigger]
                left.product(right, numbers, r) && second == computed(r, line, msg);
            assert(r1 == r2);
        },
        _ => {},
    }
}

/// An expression has one outcome.
pub proof fn evaluation_is_determined<N: Fn(NumberOp) -> u64>(
    expr: ExprView,
    bindings: Map<Seq<char>, ValueView>,
    numbers: N,
    first: Outcome,
    second: Outcome,
)
    requires
        single_valued(numbers),
        evaluates(expr, bindings, numbers, first),
        evaluates(expr, bindings, numbers, second),
    ensures
        first == second,
    decreases expr,
{
    match expr {
        ExprView::Literal { value } => {
            literal_is_determined(value, numbers, first, second);
        },
        ExprView::Grouping { expression } => {
            evaluation_is_determined(*expression, bindings, numbers, first, second);
        },
        ExprView::Unary { operator, right } => {
            let r1 = choose|r: Outcome| #[trigger]
                witness(r) && evaluates(*right, bindings, numbers, r) && match r {
                    Ok(value) => first == unary_outcome(operator, value),
                    Err(error) => first == Outcome::Err(error),
                };
            let r2 = choose|r: Outcome| #[trigger]
                witness(r) && evaluates(*right, bindings, numbers, r) && match r {
                    Ok(value) => second == unary_outcome(operator, value),
                    Err(error) => second == Outcome::Err(error),
                };
            evaluation_is_determined(*right, bindings, numbers, r1, r2);
        },
        ExprView::Binary { left, operator, right } => {
            let l1 = choose|l: Outcome| #[trigger]
                witness(l) && evaluates(*left, bindings, numbers, l) && match l {
                    Ok(a) => exists|r: Outcome| #[trigger]
                        witness(r) && evaluates(*right, bindings, numbers, r) && match r {
                            Ok(b) => binary_outcome(operator, a, b, numbers, first),
                            Err(error) => first == Outcome::Err(error),
                        },
                    Err(error) => first == Outcome::Err(error),
                };
            let l2 = choose|l: Outcome| #[trigger]
                witness(l) && evaluates(*left, bindings, numbers, l) && match l {
                    Ok(a) => exists|r: Outcome| #[trigger]
                        witness(r) && evaluates(*right, bindings, numbers, r) && match r {
                            Ok(b) => binary_outcome(operator, a, b, numbers, second),
                            Err(error) => second == Outcome::Err(error),
                        },
                    Err(error) => second == Outcome::Err(error),
                };
            evaluation_is_determined(*left, bindings, numbers, l1, l2);
            if let Ok(a) = l1 {
                let r1 = choose|r: Outcome| #[trigger]
                    witness(r) && evaluates(*right, bindings, numbers, r) && match r {
                        Ok(b) => binary_outcome(operator, a, b, numbers, first),
                        Err(error) => first == Outcome::Err(error),
                    };
                let r2 = choose|r: Outcome| #[trigger]
                    witness(r) && evaluates(*right, bindings, numbers, r) && match r {
                        Ok(b) => binary_outcome(operator, a, b, numbers, second),
                        Err(error) => second == Outcome::Err(error),
                    };
                evaluation_is_determined(*right, bindings, numbers, r1, r2);
                if let Ok(b) = r1 {
                    operator_is_determined(operator, a, b, numbers, first, second);
                }
            }
        },
        ExprView::Variable { name } => {},
    }
}

/// A statement leaves one state behind.
pub proof fn execution_is_determined<N: Fn(NumberOp) -> u64, R: Fn(String) -> Option<String>>(
    stmt: StmtView,
    numbers: N,
    read: R,
    depth: nat,
    before: State,
    first: State,
    second: State,
)
    requires
        single_valued(numbers),
        single_text(read),
        executes(stmt, numbers, read, depth, before, first),
        executes(stmt, numbers, read, depth, before, second),
    ensures
        first == second,
    decreases depth, 0nat,
{
    match stmt {
        StmtView::Expression { expression } => {
            let r1 = choose|r: Outcome| #[trigger]
                evaluates(expression, before.bindings, numbers, r) && first == match r {
                    Ok(_) => before,
                    Err(error) => before.shows(Err(error)),
                };
            let r2 = choose|r: Outcome| #[trigger]
                evaluates(expression, before.bindings, numbers, r) && second == match r {
                    Ok(_) => before,
                    Err(error) => before.shows(Err(error)),
                };
            evaluation_is_determined(expression, before.bindings, numbers, r1, r2);
        },
        StmtView::Print { expression } => {
            let r1 = choose|r: Outcome| #[trigger]
                evaluates(expression, before.bindings, numbers, r) && first == before.shows(r);
            let r2 = choose|r: Outcome| #[trigger]
                evaluates(expression, before.bindings, numbers, r) && second == before.shows(r);
            evaluation_is_determined(expression, before.bindings, numbers, r1, r2);
        },
        StmtView::Let { name, initialiser } => {
            let r1 = choose|r: Outcome| #[trigger]
                evaluates(initialiser, before.bindings, numbers, r) && first == match r {
                    Ok(value) => before.binds(name.lexeme, value),
                    Err(error) => before.shows(Err(error)),
                };
            let r2 = choose|r: Outcome| #[trigger]
                evaluates(initialiser, before.bindings, numbers, r) && second == match r {
                    Ok(value) => before.binds(name.lexeme, value),
                    Err(error) => before.shows(Err(error)),
                };
            evaluation_is_determined(initialiser, before.bindings, numbers, r1, r2);
        },
        StmtView::Import { file_name, line } => {
            if depth > 0 {
                let (m, a) = choose|m: String, a: Option<String>|
                    m@ == clean_name(file_name) && #[trigger] call_ensures(read, (m,), a)
                        && match statement_stream(content_view(a)) {
                        Ok(statements) => runs(
                            statements,
                            numbers,
                            read,
                            (depth - 1) as nat,
                            before,
                            first,
                        ),
                        Err(_) => first == before.shows(import_failure(file_name, line)),
                    };
                let (n, b) = choose|n: String, b: Option<String>|
                    n@ == clean_name(file_name) && #[trigger] call_ensures(read, (n,), b)
                        && match statement_stream(content_view(b)) {
                        Ok(statements) => runs(
                            statements,
                            numbers,
                            read,
                            (depth - 1) as nat,
                            before,
                            second,
                        ),
                        Err(_) => second == before.shows(import_failure(file_name, line)),
                    };
                assert(content_view(a) == content_view(b));
                if let Ok(statements) = statement_stream(content_view(a)) {
                    run_is_determined(
                        statements,
                        numbers,
                        read,
                        (depth - 1) as nat,
                        before,
                        first,
                        second,
                    );
                }
            }
        },
    }
}

/// A sequence of statements leaves one state behind.
pub proof fn run_is_determined<N: Fn(NumberOp) -> u64, R: Fn(String) -> Option<String>>(
    statements: Seq<StmtView>,
    numbers: N,
    read: R,
    depth: nat,
    before: State,
    first: State,
    second: State,
)
    requires
        single_valued(numbers),
        single_text(read),
        runs(statements, numbers, read, depth, before, first),
        runs(statements, numbers, read, depth, before, second),
    ensures
        first == second,
    decreases depth, statements.len() + 1,
{
    if statements.len() > 0 {
        let m1 = choose|mid: State| #[trigger]
            witness(mid) && runs(statements.drop_last(), numbers, read, depth, before, mid)
                && executes(statements.last(), numbers, read, depth, mid, first);
        let m2 = choose|mid: State| #[trigger]
            witness(mid) && runs(statements.drop_last(), numbers, read, depth, before, mid)
                && executes(statements.last(), numbers, read, depth, mid, second);
        run_is_determined(statements.drop_last(), numbers, read, depth, before, m1, m2);
        execution_is_determined(statements.last(), numbers, read, depth, m1, first, second);
    }
}

} // verus!
