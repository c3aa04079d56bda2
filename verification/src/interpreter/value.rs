//! The values of the language and the operators on them.

use std::cmp::Ordering;
use vstd::prelude::*;
use vstd::std_specs::cmp::{PartialEqSpecImpl, PartialOrdSpecImpl};
use vstd::string::StringExecFns;
use crate::number::{
    before,
    equal,
    is_zero,
    negate,
    negated,
    order_key,
    same_number,
    zero,
    NumberOp,
};

verus! {

/// A value: a string, a number held as its binary64 bit pattern, a boolean
/// or the absent value.
#[derive(Debug)]
pub enum Value {
    String(String),
    Number(u64),
    Bool(bool),
    Null,
}

/// What a [`Value`] holds, as plain values.
pub enum ValueView {
    String(Seq<char>),
    Number(u64),
    Bool(bool),
    Null,
}

impl View for Value {
    type V = ValueView;

    open spec fn view(&self) -> ValueView {
        match self {
            Value::String(s) => ValueView::String(s@),
            Value::Number(n) => ValueView::Number(*n),
            Value::Bool(b) => ValueView::Bool(*b),
            Value::Null => ValueView::Null,
        }
    }
}

impl Clone for Value {
    fn clone(&self) -> (out: Self)
        ensures
            out == *self,
    {
        match self {
            Value::String(s) => Value::String(s.clone()),
            Value::Number(n) => Value::Number(*n),
            Value::Bool(b) => Value::Bool(*b),
            Value::Null => Value::Null,
        }
    }
}

/// The embedding program's arithmetic answers every request.
pub open spec fn answers_all<N: Fn(NumberOp) -> u64>(numbers: N) -> bool {
    forall|op: NumberOp| call_requires(numbers, (op,))
}

/// `out` is an answer of the embedding program's arithmetic to `op`.
pub open spec fn answers<N: Fn(NumberOp) -> u64>(numbers: N, op: NumberOp, out: u64) -> bool {
    call_ensures(numbers, (op,), out)
}

impl ValueView {
    /// `-x`: defined for numbers alone.
    pub open spec fn negation(self) -> Option<ValueView> {
        match self {
            ValueView::Number(n) => Some(ValueView::Number(negated(n))),
            _ => None,
        }
    }

    /// `!x`: true for zero, for the absent value and for a string that is
    /// not empty; the inverse of a boolean.
    pub open spec fn inverse(self) -> ValueView {
        match self {
            ValueView::String(s) => ValueView::Bool(s.len() != 0),
            ValueView::Number(n) => ValueView::Bool(is_zero(n)),
            ValueView::Bool(b) => ValueView::Bool(!b),
            ValueView::Null => ValueView::Bool(true),
        }
    }

    /// `x == y`: by value between two values of one type, false between
    /// values of two types.
    pub open spec fn equals(self, other: ValueView) -> bool {
        match (self, other) {
            (ValueView::Number(a), ValueView::Number(b)) => same_number(a, b),
            (ValueView::String(a), ValueView::String(b)) => a == b,
            (ValueView::Bool(a), ValueView::Bool(b)) => a == b,
            (ValueView::Null, ValueView::Null) => true,
            _ => false,
        }
    }

    /// How `self` stands to `other`: numbers by the total order, strings by
    /// their length in characters, nothing else at all.
    pub open spec fn order(self, other: ValueView) -> Option<Ordering> {
        match (self, other) {
            (ValueView::Number(a), ValueView::Number(b)) => Some(
                if order_key(a) < order_key(b) {
                    Ordering::Less
                } else if order_key(a) > order_key(b) {
                    Ordering::Greater
                } else {
                    Ordering::Equal
                },
            ),
            (ValueView::String(a), ValueView::String(b)) => Some(
                if a.len() < b.len() {
                    Ordering::Less
                } else if a.len() > b.len() {
                    Ordering::Greater
                } else {
                    Ordering::Equal
                },
            ),
            _ => None,
        }
    }

    /// `out` is `self + rhs`: the concatenation of two strings, a sum of two
    /// numbers, and nothing for any other pair.
    pub open spec fn sum<N: Fn(NumberOp) -> u64>(
        self,
        rhs: ValueView,
        numbers: N,
        out: Option<ValueView>,
    ) -> bool {
        match (self, rhs) {
            (ValueView::String(a), ValueView::String(b)) => out == Some(ValueView::String(a + b)),
            (ValueView::Number(a), ValueView::Number(b)) => out matches Some(ValueView::Number(r))
                && answers(numbers, NumberOp::Add(a, b), r),
            _ => out is None,
        }
    }

    /// `out` is `self - rhs`: a difference of two numbers, and nothing for
    /// any other pair.
    pub open spec fn difference<N: Fn(NumberOp) -> u64>(
        self,
        rhs: ValueView,
        numbers: N,
        out: Option<ValueView>,
    ) -> bool {
        match (self, rhs) {
            (ValueView::Number(a), ValueView::Number(b)) => out matches Some(ValueView::Number(r))
                && answers(numbers, NumberOp::Sub(a, b), r),
            _ => out is None,
        }
    }

    /// `out` is `self * rhs`: a product of two numbers, and nothing for any
    /// other pair.
    pub open spec fn product<N: Fn(NumberOp) -> u64>(
        self,
        rhs: ValueView,
        numbers: N,
        out: Option<ValueView>,
    ) -> bool {
        match (self, rhs) {
            (ValueView::Number(a), ValueView::Number(b)) => out matches Some(ValueView::Number(r))
                && answers(numbers, NumberOp::Mul(a, b), r),
            _ => out is None,
        }
    }

    /// `out` is `self / rhs`: a quotient of two numbers of which the second
    /// is not zero, and nothing for any other pair.
    pub open spec fn quotient<N: Fn(NumberOp) -> u64>(
        self,
        rhs: ValueView,
        numbers: N,
        out: Option<ValueView>,
    ) -> bool {
        match (self, rhs) {
            (ValueView::Number(a), ValueView::Number(b)) => if is_zero(b) {
                out is None
            } else {
                out matches Some(ValueView::Number(r)) && answers(numbers, NumberOp::Div(a, b), r)
            },
            _ => out is None,
        }
    }
}

/// The view of an optional value.
pub open spec fn option_view(value: Option<Value>) -> Option<ValueView> {
    match value {
        Some(v) => Some(v@),
        None => None,
    }
}

// unary operators:
impl Value {
    /// `-self`.
    pub fn neg(self) -> (out: Option<Value>)
        ensures
            option_view(out) == self@.negation(),
    {
        match self {
            Value::String(_) => None,
            Value::Number(n) => Some(Value::Number(negate(n))),
            Value::Bool(_) => None,
            Value::Null => None,
        }
    }

    /// `!self`.
    pub fn not(self) -> (out: Value)
        ensures
            out@ == self@.inverse(),
    {
        match self {
            Value::String(s) => Value::Bool(!s.as_str().is_empty()),
            Value::Number(n) => Value::Bool(zero(n)),
            Value::Bool(b) => Value::Bool(!b),
            Value::Null => Value::Bool(true),
        }
    }

    // binary operators:
    // arithmetic:
    /// `self + rhs`.
    pub fn add<N: Fn(NumberOp) -> u64>(self, rhs: Value, numbers: &N) -> (out: Option<Value>)
        requires
            answers_all(*numbers),
        ensures
            self@.sum(rhs@, *numbers, option_view(out)),
    {
        match (self, rhs) {
            (Value::String(s1), Value::String(s2)) => Some(Value::String(s1.concat(s2.as_str()))),
            (Value::Number(n1), Value::Number(n2)) => Some(
                Value::Number(numbers(NumberOp::Add(n1, n2))),
            ),
            _ => None,
        }
    }

    /// `self - rhs`.
    pub fn sub<N: Fn(NumberOp) -> u64>(self, rhs: Value, numbers: &N) -> (out: Option<Value>)
        requires
            answers_all(*numbers),
        ensures
            self@.difference(rhs@, *numbers, option_view(out)),
    {
        match (self, rhs) {
            (Value::Number(n1), Value::Number(n2)) => Some(
                Value::Number(numbers(NumberOp::Sub(n1, n2))),
            ),
            _ => None,
        }
    }

    /// `self * rhs`.
    pub fn mul<N: Fn(NumberOp) -> u64>(self, rhs: Value, numbers: &N) -> (out: Option<Value>)
        requires
            answers_all(*numbers),
        ensures
            self@.product(rhs@, *numbers, option_view(out)),
    {
        match (self, rhs) {
            (Value::Number(n1), Value::Number(n2)) => Some(
                Value::Number(numbers(NumberOp::Mul(n1, n2))),
            ),
            _ => None,
        }
    }

    /// `self / rhs`. Division by zero is refused, not answered with an
    /// infinity.
    pub fn div<N: Fn(NumberOp) -> u64>(self, rhs: Value, numbers: &N) -> (out: Option<Value>)
        requires
            answers_all(*numbers),
        ensures
            self@.quotient(rhs@, *numbers, option_view(out)),
    {
        match (self, rhs) {
            (Value::Number(n1), Value::Number(n2)) => {
                if zero(n2) {
                    return None;
                } else {
                    return Some(Value::Number(numbers(NumberOp::Div(n1, n2))));
                }
            },
            _ => None,
        }
    }
}

// comparison
impl PartialOrd for Value {
    fn partial_cmp(&self, other: &Self) -> (out: Option<Ordering>) {
        match (self, other) {
            (Value::Number(n1), Value::Number(n2)) => Some(
                if before(*n1, *n2) {
                    Ordering::Less
                } else if before(*n2, *n1) {
                    Ordering::Greater
                } else {
                    Ordering::Equal
                },
            ),
            (Value::String(s1), Value::String(s2)) => {
                let l1 = s1.as_str().unicode_len();
                let l2 = s2.as_str().unicode_len();
                Some(
                    if l1 < l2 {
                        Ordering::Less
                    } else if l1 > l2 {
                        Ordering::Greater
                    } else {
                        Ordering::Equal
                    },
                )
            },
            _ => None,
        }
    }
}

impl PartialOrdSpecImpl for Value {
    open spec fn obeys_partial_cmp_spec() -> bool {
        true
    }

    open spec fn partial_cmp_spec(&self, other: &Value) -> Option<Ordering> {
        self@.order(other@)
    }
}

impl PartialEq for Value {
    fn eq(&self, other: &Self) -> (out: bool) {
        match (self, other) {
            (Value::Number(n1), Value::Number(n2)) => equal(*n1, *n2),
            (Value::String(s1), Value::String(s2)) => *s1 == *s2,
            (Value::Bool(b1), Value::Bool(b2)) => *b1 == *b2,
            (Value::Null, Value::Null) => true,
            _ => false,
        }
    }
}

impl PartialEqSpecImpl for Value {
    open spec fn obeys_eq_spec() -> bool {
        true
    }

    open spec fn eq_spec(&self, other: &Value) -> bool {
        self@.equals(other@)
    }
}

} // verus!
