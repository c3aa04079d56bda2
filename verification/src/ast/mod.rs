//! The syntax tree, the parser that builds it, and a printer that writes a
//! tree in prefix form.

pub mod expressions;
pub mod grammar;
pub mod parser;
pub mod statements;

use vstd::prelude::*;
use vstd::string::StringExecFns;
use crate::logic::witness;
use crate::number::Numeral;
use crate::syntax::token::Literal;
use crate::syntax::token::LiteralView;
use crate::text::{quoted, quoted_text};
use expressions::{Expr, ExprView};

verus! {

/// `show` writes every numeral.
pub open spec fn shows_all<S: Fn(Numeral) -> String>(show: S) -> bool {
    forall|numeral: Numeral| call_requires(show, (numeral,))
}

/// `out` is a possible text of the literal `value`: the name of its kind and,
/// in parentheses, a string between quotes, a number as `show` writes it, or
/// a boolean by its name. The absent value is `None`.
pub open spec fn literal_text<S: Fn(Numeral) -> String>(
    value: LiteralView,
    show: S,
    out: Seq<char>,
) -> bool {
    match value {
        LiteralView::String(s) => out == "String("@ + quoted_text(s) + ")"@,
        LiteralView::Number(text) => exists|numeral: Numeral, shown: String|
            numeral@ == text && #[trigger] call_ensures(show, (numeral,), shown) && out
                == "Number("@ + shown@ + ")"@,
        LiteralView::Bool(b) => out == if b {
            "Bool(true)"@
        } else {
            "Bool(false)"@
        },
        LiteralView::Null => out == "None"@,
    }
}

/// `out` is a possible prefix form of `expr`: an operator between quotes
/// before its operands, which stand in parentheses, each between quotes of
/// its own.
pub open spec fn parenthesized<S: Fn(Numeral) -> String>(
    expr: ExprView,
    show: S,
    out: Seq<char>,
) -> bool
    decreases expr,
{
    match expr {
        ExprView::Binary { left, operator, right } => exists|l: Seq<char>, r: Seq<char>| #[trigger]
            witness((l, r)) && parenthesized(*left, show, l) && parenthesized(*right, show, r)
                && out == quoted_text(operator.lexeme) + " ("@ + quoted_text(l) + " "@
                + quoted_text(r) + ")"@,
        ExprView::Grouping { expression } => exists|inner: Seq<char>| #[trigger]
            witness(inner) && parenthesized(*expression, show, inner) && out == "("@ + quoted_text(
                inner,
            ) + ")"@,
        ExprView::Literal { value } => literal_text(value, show, out),
        ExprView::Unary { operator, right } => exists|r: Seq<char>| #[trigger]
            witness(r) && parenthesized(*right, show, r) && out == quoted_text(operator.lexeme)
                + " ("@ + quoted_text(r) + ")"@,
        ExprView::Variable { name } => out == quoted_text(name.lexeme),
    }
}

impl Expr {
    /// The line that shows the tree: its prefix form, between quotes.
    pub fn ast_printer<S: Fn(Numeral) -> String>(&self, show: &S) -> (out: String)
        requires
            shows_all(*show),
        ensures
            exists|text: Seq<char>| #[trigger]
                witness(text) && parenthesized(self@, *show, text) && out@ == quoted_text(text),
    {
        let text = self.parenthesize(show);
        assert(witness(text@));
        quoted(text.as_str())
    }

    /// The prefix form of the tree.
    pub fn parenthesize<S: Fn(Numeral) -> String>(&self, show: &S) -> (out: String)
        requires
            shows_all(*show),
        ensures
            parenthesized(self@, *show, out@),
        decreases self,
    {
        match self {
            Self::Binary(bin) => {
                let left = bin.left.parenthesize(show);
                let right = bin.right.parenthesize(show);
                assert(witness((left@, right@)));
                let mut ast = quoted(bin.operator.lexeme.as_str());
                ast.append(" (");
                ast.append(quoted(left.as_str()).as_str());
                ast.append(" ");
                ast.append(quoted(right.as_str()).as_str());
                ast.append(")");
                ast
            },
            Self::Grouping(grp) => {
                let inner = grp.expression.parenthesize(show);
                assert(witness(inner@));
                let mut ast = "(".to_string();
                ast.append(quoted(inner.as_str()).as_str());
                ast.append(")");
                ast
            },
            Self::Literal(lit) => {
                match &lit.value {
                    Literal::String(s) => {
                        let mut ast = "String(".to_string();
                        ast.append(quoted(s.as_str()).as_str());
                        ast.append(")");
                        ast
                    },
                    Literal::Number(n) => {
                        let numeral = n.clone();
                        let ghost asked = numeral;
                        let shown = show(numeral);
                        assert(call_ensures(*show, (asked,), shown));
                        let mut ast = "Number(".to_string();
                        ast.append(shown.as_str());
                        ast.append(")");
                        ast
                    },
                    Literal::Bool(b) => if *b {
                        "Bool(true)".to_string()
                    } else {
                        "Bool(false)".to_string()
                    },
                    Literal::Null => "None".to_string(),
                }
            },
            Self::Unary(un) => {
                let right = un.right.parenthesize(show);
                assert(witness(right@));
                let mut ast = quoted(un.operator.lexeme.as_str());
                ast.append(" (");
                ast.append(quoted(right.as_str()).as_str());
                ast.append(")");
                ast
            },
            Self::Variable(var) => quoted(var.name.lexeme.as_str()),
        }
    }
}

} // verus!
