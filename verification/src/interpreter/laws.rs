//! Laws of the operators, stated over the meaning of expressions.

use vstd::prelude::*;
use super::semantics::{binary_outcome, failure, Outcome};
use super::value::{answers, ValueView};
use crate::number::{is_nan, is_zero, order_key, same_number, NumberOp};
use crate::syntax::token::{TokenType, TokenView};

verus! {

/// The request that the arithmetic operator `kind` makes of the embedding
/// program for the numbers `a` and `b`.
pub open spec fn request(kind: TokenType, a: u64, b: u64) -> NumberOp {
    match kind {
        TokenType::Plus => NumberOp::Add(a, b),
        TokenType::Minus => NumberOp::Sub(a, b),
        TokenType::Star => NumberOp::Mul(a, b),
        _ => NumberOp::Div(a, b),
    }
}

/// Sum, difference and product of two numbers are what the embedding
/// program's arithmetic answers for the two operands as they are, and so is
/// the quotient where the divisor is not zero: the interpreter neither
/// changes an operand nor the answer, and never fails.
pub proof fn arithmetic_is_the_hosts<N: Fn(NumberOp) -> u64>(
    operator: TokenView,
    a: u64,
    b: u64,
    numbers: N,
    out: Outcome,
)
    requires
        operator.token_type == TokenType::Plus || operator.token_type == TokenType::Minus
            || operator.token_type == TokenType::Star || (operator.token_type == TokenType::Slash
            && !is_zero(b)),
    ensures
        binary_outcome(operator, ValueView::Number(a), ValueView::Number(b), numbers, out) <==> (
        out matches Ok(ValueView::Number(r)) && answers(
            numbers,
            request(operator.token_type, a, b),
            r,
        )),
{
    let kind = operator.token_type;
    let left = ValueView::Number(a);
    let right = ValueView::Number(b);
    if out matches Ok(ValueView::Number(r)) && answers(numbers, request(kind, a, b), r) {
        let r = out->Ok_0->Number_0;
        let result = Some(ValueView::Number(r));
        assert(kind == TokenType::Plus ==> left.sum(right, numbers, result));
        assert(kind == TokenType::Minus ==> left.difference(right, numbers, result));
        assert(kind == TokenType::Star ==> left.product(right, numbers, result));
        assert(kind == TokenType::Slash ==> left.quotient(right, numbers, result));
    }
}

/// Division by zero, of either sign, is a runtime error on the line of the
/// operator, whatever the dividend and whatever the embedding program's
/// arithmetic would answer.
pub proof fn division_by_zero_fails<N: Fn(NumberOp) -> u64>(
    operator: TokenView,
    a: u64,
    b: u64,
    numbers: N,
    out: Outcome,
)
    requires
        operator.token_type == TokenType::Slash,
        is_zero(b),
    ensures
        binary_outcome(operator, ValueView::Number(a), ValueView::Number(b), numbers, out)
            <==> out == failure(operator.line, "Division error."@),
{
    let left = ValueView::Number(a);
    let right = ValueView::Number(b);
    assert(left.quotient(right, numbers, None));
}

/// The sum of two strings is their concatenation.
pub proof fn strings_concatenate<N: Fn(NumberOp) -> u64>(
    operator: TokenView,
    s1: Seq<char>,
    s2: Seq<char>,
    numbers: N,
    out: Outcome,
)
    requires
        operator.token_type == TokenType::Plus,
    ensures
        binary_outcome(operator, ValueView::String(s1), ValueView::String(s2), numbers, out)
            <==> out == Outcome::Ok(ValueView::String(s1 + s2)),
{
    let left = ValueView::String(s1);
    let right = ValueView::String(s2);
    assert(left.sum(right, numbers, Some(ValueView::String(s1 + s2))));
}

/// What the comparison `kind` makes of two keys.
pub open spec fn compares(kind: TokenType, a: int, b: int) -> bool {
    match kind {
        TokenType::Less => a < b,
        TokenType::LessEqual => a <= b,
        TokenType::Greater => a > b,
        _ => a >= b,
    }
}

/// The four comparisons.
pub open spec fn is_ordering(kind: TokenType) -> bool {
    kind == TokenType::Less || kind == TokenType::LessEqual || kind == TokenType::Greater || kind
        == TokenType::GreaterEqual
}

/// Strings are ordered by their length in characters, not by their
/// characters.
pub proof fn strings_order_by_length<N: Fn(NumberOp) -> u64>(
    operator: TokenView,
    s1: Seq<char>,
    s2: Seq<char>,
    numbers: N,
    out: Outcome,
)
    requires
        is_ordering(operator.token_type),
    ensures
        binary_outcome(operator, ValueView::String(s1), ValueView::String(s2), numbers, out)
            <==> out == Outcome::Ok(
            ValueView::Bool(compares(operator.token_type, s1.len() as int, s2.len() as int)),
        ),
{
}

/// Numbers are ordered by the IEEE-754 total order.
pub proof fn numbers_order_totally<N: Fn(NumberOp) -> u64>(
    operator: TokenView,
    a: u64,
    b: u64,
    numbers: N,
    out: Outcome,
)
    requires
        is_ordering(operator.token_type),
    ensures
        binary_outcome(operator, ValueView::Number(a), ValueView::Number(b), numbers, out)
            <==> out == Outcome::Ok(
            ValueView::Bool(compares(operator.token_type, order_key(a), order_key(b))),
        ),
{
}

/// Two values that are neither two numbers nor two strings are in no order:
/// every comparison between them is false.
pub proof fn other_pairs_are_unordered<N: Fn(NumberOp) -> u64>(
    operator: TokenView,
    left: ValueView,
    right: ValueView,
    numbers: N,
    out: Outcome,
)
    requires
        is_ordering(operator.token_type),
        !(left is Number && right is Number),
        !(left is String && right is String),
    ensures
        binary_outcome(operator, left, right, numbers, out) <==> out == Outcome::Ok(
            ValueView::Bool(false),
        ),
{
}

/// A number and a string cannot be added, in either order: the sum is a
/// runtime error on the line of the operator.
pub proof fn number_plus_string_fails<N: Fn(NumberOp) -> u64>(
    operator: TokenView,
    n: u64,
    s: Seq<char>,
    numbers: N,
    out: Outcome,
)
    requires
        operator.token_type == TokenType::Plus,
    ensures
        binary_outcome(operator, ValueView::Number(n), ValueView::String(s), numbers, out)
            <==> out == failure(
            operator.line,
            "Can only add literals of same type. Supported types: Number, String"@,
        ),
        binary_outcome(operator, ValueView::String(s), ValueView::Number(n), numbers, out)
            <==> out == failure(
            operator.line,
            "Can only add literals of same type. Supported types: Number, String"@,
        ),
{
    assert(ValueView::Number(n).sum(ValueView::String(s), numbers, None));
    assert(ValueView::String(s).sum(ValueView::Number(n), numbers, None));
}

/// Values of two different types are never equal.
pub proof fn different_types_are_unequal(left: ValueView, right: ValueView)
    requires
        !(left is Number && right is Number),
        !(left is String && right is String),
        !(left is Bool && right is Bool),
        !(left is Null && right is Null),
    ensures
        !left.equals(right),
{
}

/// Values of one type are equal by value: the absent value equals itself,
/// strings and booleans are equal when they are the same, and numbers when
/// IEEE-754 holds them equal, so that the two zeros are equal and a NaN
/// equals nothing, not even itself.
pub proof fn same_types_are_equal_by_value(
    s1: Seq<char>,
    s2: Seq<char>,
    b1: bool,
    b2: bool,
    n1: u64,
    n2: u64,
)
    ensures
        ValueView::Null.equals(ValueView::Null),
        ValueView::String(s1).equals(ValueView::String(s2)) <==> s1 == s2,
        ValueView::Bool(b1).equals(ValueView::Bool(b2)) <==> b1 == b2,
        ValueView::Number(n1).equals(ValueView::Number(n2)) <==> same_number(n1, n2),
        !is_nan(n1) && !is_nan(n2) && !is_zero(n1) ==> (ValueView::Number(n1).equals(
            ValueView::Number(n2),
        ) <==> n1 == n2),
        is_zero(n1) && is_zero(n2) ==> ValueView::Number(n1).equals(ValueView::Number(n2)),
        is_nan(n1) ==> !ValueView::Number(n1).equals(ValueView::Number(n2)),
{
}

/// `==` and `!=` never fail, and each is the other's inverse.
pub proof fn equality_never_fails<N: Fn(NumberOp) -> u64>(
    operator: TokenView,
    left: ValueView,
    right: ValueView,
    numbers: N,
    out: Outcome,
)
    ensures
        operator.token_type == TokenType::EqualEqual ==> (binary_outcome(
            operator,
            left,
            right,
            numbers,
            out,
        ) <==> out == Outcome::Ok(ValueView::Bool(left.equals(right)))),
        operator.token_type == TokenType::BangEqual ==> (binary_outcome(
            operator,
            left,
            right,
            numbers,
            out,
        ) <==> out == Outcome::Ok(ValueView::Bool(!left.equals(right)))),
{
}

} // verus!
