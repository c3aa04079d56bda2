//! The grammar, as functions from a token sequence and a position to the tree
//! that stands there, the number of tokens it takes up and the errors found
//! on the way.
//!
//! From the loosest binding to the tightest: equality (`==`, `!=`),
//! comparison (`<`, `<=`, `>`, `>=`), term (`+`, `-`), factor (`*`, `/`),
//! unary (`!`, `-`), primary. The binary levels associate to the left.

use vstd::prelude::*;
use super::expressions::{null_literal, ExprView};
use super::statements::StmtView;
use crate::errors::parse_error::ParseErrorView;
use crate::syntax::token::{LiteralView, TokenType, TokenView};

verus! {

/// What the parser makes of the tokens that start at one position.
pub struct Parsed<T> {
    /// The tree built.
    pub value: T,
    /// How many tokens were consumed.
    pub consumed: nat,
    /// The errors found, in order.
    pub errors: Seq<ParseErrorView>,
}

/// A token sequence that the parser can walk: it is closed by an
/// end-of-input token.
pub open spec fn well_ended(t: Seq<TokenView>) -> bool {
    t.len() > 0 && t[t.len() - 1].token_type == TokenType::Eof
}

/// How many tokens stand at `at` or behind it.
pub open spec fn remaining(t: Seq<TokenView>, at: int) -> nat {
    if at < t.len() {
        (t.len() - at) as nat
    } else {
        0
    }
}

/// Whether the token at `at` is the end of the input.
pub open spec fn at_end(t: Seq<TokenView>, at: int) -> bool {
    !(0 <= at < t.len()) || t[at].token_type == TokenType::Eof
}

/// Whether the token at `at` is of kind `kind`, and not the end of the input.
pub open spec fn check(t: Seq<TokenView>, at: int, kind: TokenType) -> bool {
    !at_end(t, at) && t[at].token_type == kind
}

/// What is left of a required token: the token, if it stands at `at`, or one
/// error at the token that stands there instead.
pub struct Consumed {
    pub found: Option<TokenView>,
    pub consumed: nat,
    pub errors: Seq<ParseErrorView>,
}

/// Requires a token of kind `kind` at `at`.
pub open spec fn consume(t: Seq<TokenView>, at: int, kind: TokenType, msg: Seq<char>) -> Consumed {
    if check(t, at, kind) {
        Consumed { found: Some(t[at]), consumed: 1, errors: Seq::empty() }
    } else {
        Consumed {
            found: None,
            consumed: 0,
            errors: seq![ParseErrorView { token: t[at], msg }],
        }
    }
}

/// A literal expression.
pub open spec fn literal(value: LiteralView) -> ExprView {
    ExprView::Literal { value }
}

/// The operation `operator` on `left` and `right`.
pub open spec fn binary(left: ExprView, operator: TokenView, right: ExprView) -> ExprView {
    ExprView::Binary { left: Box::new(left), operator, right: Box::new(right) }
}

/// `inner` with `by` more tokens consumed around it.
pub open spec fn shifted<T>(inner: Parsed<T>, by: nat) -> Parsed<T> {
    Parsed { value: inner.value, consumed: inner.consumed + by, errors: inner.errors }
}

/// The operators of an equality: `!=` and `==`.
pub open spec fn is_equality(kind: TokenType) -> bool {
    kind == TokenType::BangEqual || kind == TokenType::EqualEqual
}

/// The operators of a comparison: `>`, `>=`, `<` and `<=`.
pub open spec fn is_comparison(kind: TokenType) -> bool {
    kind == TokenType::Greater || kind == TokenType::GreaterEqual || kind == TokenType::Less
        || kind == TokenType::LessEqual
}

/// The operators of a term: `+` and `-`.
pub open spec fn is_term(kind: TokenType) -> bool {
    kind == TokenType::Plus || kind == TokenType::Minus
}

/// The operators of a factor: `/` and `*`.
pub open spec fn is_factor(kind: TokenType) -> bool {
    kind == TokenType::Slash || kind == TokenType::Star
}

/// The prefix operators: `!` and `-`.
pub open spec fn is_unary(kind: TokenType) -> bool {
    kind == TokenType::Bang || kind == TokenType::Minus
}

/// The expression that starts at `at`.
#[verifier::opaque]
pub open spec fn expression(t: Seq<TokenView>, at: int) -> Parsed<ExprView>
    decreases remaining(t, at), 10nat,
{
    equality(t, at)
}

/// An equality: comparisons joined by `==` and `!=`.
#[verifier::opaque]
pub open spec fn equality(t: Seq<TokenView>, at: int) -> Parsed<ExprView>
    decreases remaining(t, at), 9nat,
{
    equality_rest(t, at, comparison(t, at))
}

/// What an equality that starts at `at` and has come as far as `left`
/// becomes.
#[verifier::opaque]
pub open spec fn equality_rest(t: Seq<TokenView>, at: int, left: Parsed<ExprView>) -> Parsed<
    ExprView,
>
    decreases remaining(t, at + left.consumed), 8nat,
{
    let here = at + left.consumed;
    if !at_end(t, here) && is_equality(t[here].token_type) {
        let right = comparison(t, here + 1);
        equality_rest(
            t,
            at,
            Parsed {
                value: binary(left.value, t[here], right.value),
                consumed: left.consumed + 1 + right.consumed,
                errors: left.errors + right.errors,
            },
        )
    } else {
        left
    }
}

/// A comparison: terms joined by `<`, `<=`, `>` and `>=`.
#[verifier::opaque]
pub open spec fn comparison(t: Seq<TokenView>, at: int) -> Parsed<ExprView>
    decreases remaining(t, at), 7nat,
{
    comparison_rest(t, at, term(t, at))
}

/// What a comparison that starts at `at` and has come as far as `left`
/// becomes.
#[verifier::opaque]
pub open spec fn comparison_rest(t: Seq<TokenView>, at: int, left: Parsed<ExprView>) -> Parsed<
    ExprView,
>
    decreases remaining(t, at + left.consumed), 6nat,
{
    let here = at + left.consumed;
    if !at_end(t, here) && is_comparison(t[here].token_type) {
        let right = term(t, here + 1);
        comparison_rest(
            t,
            at,
            Parsed {
                value: binary(left.value, t[here], right.value),
                consumed: left.consumed + 1 + right.consumed,
                errors: left.errors + right.errors,
            },
        )
    } else {
        left
    }
}

/// A term: factors joined by `+` and `-`.
#[verifier::opaque]
pub open spec fn term(t: Seq<TokenView>, at: int) -> Parsed<ExprView>
    decreases remaining(t, at), 5nat,
{
    term_rest(t, at, factor(t, at))
}

/// What a term that starts at `at` and has come as far as `left` becomes.
#[verifier::opaque]
pub open spec fn term_rest(t: Seq<TokenView>, at: int, left: Parsed<ExprView>) -> Parsed<ExprView>
    decreases remaining(t, at + left.consumed), 4nat,
{
    let here = at + left.consumed;
    if !at_end(t, here) && is_term(t[here].token_type) {
        let right = factor(t, here + 1);
        term_rest(
            t,
            at,
            Parsed {
                value: binary(left.value, t[here], right.value),
                consumed: left.consumed + 1 + right.consumed,
                errors: left.errors + right.errors,
            },
        )
    } else {
        left
    }
}

/// A factor: unary expressions joined by `*` and `/`.
#[verifier::opaque]
pub open spec fn factor(t: Seq<TokenView>, at: int) -> Parsed<ExprView>
    decreases remaining(t, at), 3nat,
{
    factor_rest(t, at, unary(t, at))
}

/// What a factor that starts at `at` and has come as far as `left` becomes.
#[verifier::opaque]
pub open spec fn factor_rest(t: Seq<TokenView>, at: int, left: Parsed<ExprView>) -> Parsed<
    ExprView,
>
    decreases remaining(t, at + left.consumed), 2nat,
{
    let here = at + left.consumed;
    if !at_end(t, here) && is_factor(t[here].token_type) {
        let right = unary(t, here + 1);
        factor_rest(
            t,
            at,
            Parsed {
                value: binary(left.value, t[here], right.value),
                consumed: left.consumed + 1 + right.consumed,
                errors: left.errors + right.errors,
            },
        )
    } else {
        left
    }
}

/// A unary expression: `!` or `-` before a unary expression, or a primary.
#[verifier::opaque]
pub open spec fn unary(t: Seq<TokenView>, at: int) -> Parsed<ExprView>
    decreases remaining(t, at), 1nat,
{
    if !at_end(t, at) && is_unary(t[at].token_type) {
        let right = unary(t, at + 1);
        Parsed {
            value: ExprView::Unary { operator: t[at], right: Box::new(right.value) },
            consumed: 1 + right.consumed,
            errors: right.errors,
        }
    } else {
        primary(t, at)
    }
}

/// A primary: a literal, an expression in parentheses or a variable. Where
/// none stands at `at`, nothing is consumed and the absent literal takes its
/// place.
#[verifier::opaque]
pub open spec fn primary(t: Seq<TokenView>, at: int) -> Parsed<ExprView>
    decreases remaining(t, at), 0nat,
{
    if check(t, at, TokenType::False) {
        Parsed { value: literal(LiteralView::Bool(false)), consumed: 1, errors: Seq::empty() }
    } else if check(t, at, TokenType::True) {
        Parsed { value: literal(LiteralView::Bool(true)), consumed: 1, errors: Seq::empty() }
    } else if check(t, at, TokenType::Null) {
        Parsed { value: null_literal(), consumed: 1, errors: Seq::empty() }
    } else if check(t, at, TokenType::Number) || check(t, at, TokenType::String) {
        Parsed { value: literal(t[at].literal), consumed: 1, errors: Seq::empty() }
    } else if check(t, at, TokenType::LeftParen) {
        let inner = expression(t, at + 1);
        let close = consume(
            t,
            at + 1 + inner.consumed,
            TokenType::RightParen,
            "Expected \")\" after expression."@,
        );
        Parsed {
            value: ExprView::Grouping { expression: Box::new(inner.value) },
            consumed: 1 + inner.consumed + close.consumed,
            errors: inner.errors + close.errors,
        }
    } else if check(t, at, TokenType::Identifier) {
        Parsed { value: ExprView::Variable { name: t[at] }, consumed: 1, errors: Seq::empty() }
    } else {
        Parsed {
            value: null_literal(),
            consumed: 0,
            errors: seq![ParseErrorView { token: t[at], msg: "Unexpected token"@ }],
        }
    }
}

// The rules of the expression grammar are opaque, so that a proof unfolds
// one rule at a time. Each lemma below reveals the rule it unfolds together
// with the rules that its equation names: a rule that stays folded cannot be
// matched on the right-hand side.

/// The defining equation of [`expression`].
pub proof fn lemma_expression(t: Seq<TokenView>, at: int)
    ensures
        expression(t, at) == equality(t, at),
{
    reveal(expression);
    reveal(equality);
}

/// The defining equation of [`equality_rest`]: where an operator of the
/// level stands behind `left`, the operand behind it joins `left`.
pub proof fn lemma_equality_rest(t: Seq<TokenView>, at: int, left: Parsed<ExprView>)
    ensures
        equality_rest(t, at, left) == if !at_end(t, at + left.consumed) && is_equality(
            t[at + left.consumed].token_type,
        ) {
            equality_rest(
                t,
                at,
                Parsed {
                    value: binary(
                        left.value,
                        t[at + left.consumed],
                        comparison(t, at + left.consumed + 1).value,
                    ),
                    consumed: left.consumed + 1 + comparison(t, at + left.consumed + 1).consumed,
                    errors: left.errors + comparison(t, at + left.consumed + 1).errors,
                },
            )
        } else {
            left
        },
{
    reveal(equality_rest);
    reveal(comparison);
}

/// The defining equation of [`equality`].
pub proof fn lemma_equality(t: Seq<TokenView>, at: int)
    ensures
        equality(t, at) == equality_rest(t, at, comparison(t, at)),
{
    reveal(equality);
    reveal(equality_rest);
    reveal(comparison);
}

/// The defining equation of [`comparison_rest`]: where an operator of the
/// level stands behind `left`, the operand behind it joins `left`.
pub proof fn lemma_comparison_rest(t: Seq<TokenView>, at: int, left: Parsed<ExprView>)
    ensures
        comparison_rest(t, at, left) == if !at_end(t, at + left.consumed) && is_comparison(
            t[at + left.consumed].token_type,
        ) {
            comparison_rest(
                t,
                at,
                Parsed {
                    value: binary(
                        left.value,
                        t[at + left.consumed],
                        term(t, at + left.consumed + 1).value,
                    ),
                    consumed: left.consumed + 1 + term(t, at + left.consumed + 1).consumed,
                    errors: left.errors + term(t, at + left.consumed + 1).errors,
                },
            )
        } else {
            left
        },
{
    reveal(comparison_rest);
    reveal(term);
}

/// The defining equation of [`comparison`].
pub proof fn lemma_comparison(t: Seq<TokenView>, at: int)
    ensures
        comparison(t, at) == comparison_rest(t, at, term(t, at)),
{
    reveal(comparison);
    reveal(comparison_rest);
    reveal(term);
}

/// The defining equation of [`term_rest`]: where an operator of the
/// level stands behind `left`, the operand behind it joins `left`.
pub proof fn lemma_term_rest(t: Seq<TokenView>, at: int, left: Parsed<ExprView>)
    ensures
        term_rest(t, at, left) == if !at_end(t, at + left.consumed) && is_term(
            t[at + left.consumed].token_type,
        ) {
            term_rest(
                t,
                at,
                Parsed {
                    value: binary(
                        left.value,
                        t[at + left.consumed],
                        factor(t, at + left.consumed + 1).value,
                    ),
                    consumed: left.consumed + 1 + factor(t, at + left.consumed + 1).consumed,
                    errors: left.errors + factor(t, at + left.consumed + 1).errors,
                },
            )
        } else {
            left
        },
{
    reveal(term_rest);
    reveal(factor);
}

/// The defining equation of [`term`].
pub proof fn lemma_term(t: Seq<TokenView>, at: int)
    ensures
        term(t, at) == term_rest(t, at, factor(t, at)),
{
    reveal(term);
    reveal(term_rest);
    reveal(factor);
}

/// The defining equation of [`factor_rest`]: where an operator of the
/// level stands behind `left`, the operand behind it joins `left`.
pub proof fn lemma_factor_rest(t: Seq<TokenView>, at: int, left: Parsed<ExprView>)
    ensures
        factor_rest(t, at, left) == if !at_end(t, at + left.consumed) && is_factor(
            t[at + left.consumed].token_type,
        ) {
            factor_rest(
                t,
                at,
                Parsed {
                    value: binary(
                        left.value,
                        t[at + left.consumed],
                        unary(t, at + left.consumed + 1).value,
                    ),
                    consumed: left.consumed + 1 + unary(t, at + left.consumed + 1).consumed,
                    errors: left.errors + unary(t, at + left.consumed + 1).errors,
                },
            )
        } else {
            left
        },
{
    reveal(factor_rest);
    reveal(unary);
}

/// The defining equation of [`factor`].
pub proof fn lemma_factor(t: Seq<TokenView>, at: int)
    ensures
        factor(t, at) == factor_rest(t, at, unary(t, at)),
{
    reveal(factor);
    reveal(factor_rest);
    reveal(unary);
}

/// The defining equation of [`unary`].
pub proof fn lemma_unary(t: Seq<TokenView>, at: int)
    ensures
        unary(t, at) == if !at_end(t, at) && is_unary(t[at].token_type) {
            Parsed {
                value: ExprView::Unary { operator: t[at], right: Box::new(unary(t, at + 1).value) },
                consumed: 1 + unary(t, at + 1).consumed,
                errors: unary(t, at + 1).errors,
            }
        } else {
            primary(t, at)
        },
{
    reveal(unary);
    reveal(primary);
}

/// The defining equation of [`primary`].
pub proof fn lemma_primary(t: Seq<TokenView>, at: int)
    ensures
        primary(t, at) == if check(t, at, TokenType::False) {
            Parsed { value: literal(LiteralView::Bool(false)), consumed: 1, errors: Seq::empty() }
        } else if check(t, at, TokenType::True) {
            Parsed { value: literal(LiteralView::Bool(true)), consumed: 1, errors: Seq::empty() }
        } else if check(t, at, TokenType::Null) {
            Parsed { value: null_literal(), consumed: 1, errors: Seq::empty() }
        } else if check(t, at, TokenType::Number) || check(t, at, TokenType::String) {
            Parsed { value: literal(t[at].literal), consumed: 1, errors: Seq::empty() }
        } else if check(t, at, TokenType::LeftParen) {
            Parsed {
                value: ExprView::Grouping { expression: Box::new(expression(t, at + 1).value) },
                consumed: 1 + expression(t, at + 1).consumed + consume(
                    t,
                    at + 1 + expression(t, at + 1).consumed,
                    TokenType::RightParen,
                    "Expected \")\" after expression."@,
                ).consumed,
                errors: expression(t, at + 1).errors + consume(
                    t,
                    at + 1 + expression(t, at + 1).consumed,
                    TokenType::RightParen,
                    "Expected \")\" after expression."@,
                ).errors,
            }
        } else if check(t, at, TokenType::Identifier) {
            Parsed { value: ExprView::Variable { name: t[at] }, consumed: 1, errors: Seq::empty() }
        } else {
            Parsed {
                value: null_literal(),
                consumed: 0,
                errors: seq![ParseErrorView { token: t[at], msg: "Unexpected token"@ }],
            }
        },
{
    reveal(primary);
    reveal(expression);
}

/// The name that a declaration gets where none was written.
pub open spec fn missing_name() -> TokenView {
    TokenView {
        token_type: TokenType::Eof,
        lexeme: Seq::<char>::empty(),
        literal: LiteralView::Null,
        line: 0,
    }
}

/// A declaration whose `let` stands before `at`: a name, optionally `=` and
/// an initialiser, and a semicolon.
pub open spec fn var_declaration(t: Seq<TokenView>, at: int) -> Parsed<StmtView> {
    let name = consume(t, at, TokenType::Identifier, "Expected an identifier"@);
    let after_name = at + name.consumed;
    let initialiser = if check(t, after_name, TokenType::Equal) {
        shifted(expression(t, after_name + 1), 1)
    } else {
        Parsed { value: null_literal(), consumed: 0, errors: Seq::empty() }
    };
    let semicolon = consume(
        t,
        after_name + initialiser.consumed,
        TokenType::Semicolon,
        "Expected ; after variable declaration"@,
    );
    Parsed {
        value: StmtView::Let {
            name: match name.found {
                Some(token) => token,
                None => missing_name(),
            },
            initialiser: initialiser.value,
        },
        consumed: name.consumed + initialiser.consumed + semicolon.consumed,
        errors: name.errors + initialiser.errors + semicolon.errors,
    }
}

/// An import whose `import` stands before `at`: a string and a semicolon.
/// Without the string, the statement prints the absent value.
pub open spec fn import_statement(t: Seq<TokenView>, at: int) -> Parsed<StmtView> {
    let name = consume(t, at, TokenType::String, "Expected file name"@);
    let semicolon = consume(
        t,
        at + name.consumed,
        TokenType::Semicolon,
        "Expected ; after file name in import statement"@,
    );
    Parsed {
        value: match name.found {
            Some(token) => StmtView::Import { file_name: token.lexeme, line: token.line },
            None => StmtView::Print { expression: null_literal() },
        },
        consumed: name.consumed + semicolon.consumed,
        errors: name.errors + semicolon.errors,
    }
}

/// A print statement whose `print` stands before `at`.
pub open spec fn print_statement(t: Seq<TokenView>, at: int) -> Parsed<StmtView> {
    let value = expression(t, at);
    let semicolon = consume(
        t,
        at + value.consumed,
        TokenType::Semicolon,
        "Expected ; after value."@,
    );
    Parsed {
        value: StmtView::Print { expression: value.value },
        consumed: value.consumed + semicolon.consumed,
        errors: value.errors + semicolon.errors,
    }
}

/// An expression followed by a semicolon.
pub open spec fn expression_statement(t: Seq<TokenView>, at: int) -> Parsed<StmtView> {
    let value = expression(t, at);
    let semicolon = consume(
        t,
        at + value.consumed,
        TokenType::Semicolon,
        "Expected ; after expression"@,
    );
    Parsed {
        value: StmtView::Expression { expression: value.value },
        consumed: value.consumed + semicolon.consumed,
        errors: value.errors + semicolon.errors,
    }
}

/// A statement other than a declaration.
pub open spec fn statement(t: Seq<TokenView>, at: int) -> Parsed<StmtView> {
    if check(t, at, TokenType::Print) {
        shifted(print_statement(t, at + 1), 1)
    } else if check(t, at, TokenType::Import) {
        shifted(import_statement(t, at + 1), 1)
    } else {
        expression_statement(t, at)
    }
}

/// The kinds of token at which the parser takes up its work again after a
/// failed declaration.
pub open spec fn starts_statement(kind: TokenType) -> bool {
    kind == TokenType::Jungle || kind == TokenType::Gorilla || kind == TokenType::Let || kind
        == TokenType::For || kind == TokenType::If || kind == TokenType::While || kind
        == TokenType::Print || kind == TokenType::Return
}

/// How many tokens the parser skips from `at` on once it has skipped the one
/// before `at`: up to the first that follows a semicolon or starts a
/// statement.
pub open spec fn skipped_from(t: Seq<TokenView>, at: int) -> nat
    decreases remaining(t, at),
{
    if at_end(t, at) || t[at - 1].token_type == TokenType::Semicolon || starts_statement(
        t[at].token_type,
    ) {
        0
    } else {
        1 + skipped_from(t, at + 1)
    }
}

/// How many tokens the parser skips after a declaration that failed at `at`:
/// the one at `at`, and those behind it up to the first that follows a
/// semicolon or starts a statement.
pub open spec fn synchronised(t: Seq<TokenView>, at: int) -> nat {
    if at_end(t, at) {
        0
    } else {
        1 + skipped_from(t, at + 1)
    }
}

/// A declaration or a statement. After a declaration with errors, the parser
/// skips to where the next statement is likely to start.
pub open spec fn declaration(t: Seq<TokenView>, at: int) -> Parsed<StmtView> {
    if check(t, at, TokenType::Let) {
        let stmt = var_declaration(t, at + 1);
        if stmt.errors.len() > 0 {
            shifted(stmt, 1 + synchronised(t, at + 1 + stmt.consumed))
        } else {
            shifted(stmt, 1)
        }
    } else {
        statement(t, at)
    }
}

/// A parsed program.
pub struct Program {
    /// The statements, in order.
    pub statements: Seq<StmtView>,
    /// The errors, in order.
    pub errors: Seq<ParseErrorView>,
}

/// How far the parser moves over the statement at `at`: by what the
/// statement consumed, and by one token where it consumed none.
pub open spec fn stride(t: Seq<TokenView>, at: int) -> nat {
    if declaration(t, at).consumed == 0 {
        1
    } else {
        declaration(t, at).consumed
    }
}

/// The statements and errors of `t` from `at` on.
pub open spec fn program_from(t: Seq<TokenView>, at: int) -> Program
    decreases remaining(t, at),
{
    if at_end(t, at) {
        Program { statements: Seq::empty(), errors: Seq::empty() }
    } else {
        let first = declaration(t, at);
        let rest = program_from(t, at + stride(t, at));
        Program {
            statements: seq![first.value] + rest.statements,
            errors: first.errors + rest.errors,
        }
    }
}

/// The statements and errors of a whole token sequence.
pub open spec fn program(t: Seq<TokenView>) -> Program {
    program_from(t, 0)
}

} // verus!
