//! The parser: recursive descent over the tokens, one method for each rule of
//! the grammar. It never gives up: where a token is missing it records an
//! error, puts a placeholder into the tree and goes on.

use vstd::prelude::*;
use super::expressions::{
    null_literal,
    Binary,
    Expr,
    ExprView,
    Grouping,
    Literal,
    Unary,
    Variable,
};
use super::grammar;
use super::grammar::{at_end, remaining, well_ended, Parsed};
use super::statements::{stmt_views, Expression, Import, Let, Print, Stmt, StmtView};
use crate::errors::parse_error::{ParseError, ParseErrorView};
use crate::syntax::scanner::token_views;
use crate::syntax::token::Literal as LiteralToken;
use crate::syntax::token::{LiteralView, Token, TokenType, TokenView};

verus! {

/// The errors of `errors`, as plain values.
pub open spec fn parse_error_views(errors: Seq<ParseError>) -> Seq<ParseErrorView> {
    errors.map_values(|e: ParseError| e@)
}

/// A parser over one token sequence.
#[derive(Debug)]
pub struct Parser {
    tokens: Vec<Token>,
    current: usize,
    pub errors: Vec<ParseError>,
}

impl Parser {
    /// The tokens being parsed.
    pub closed spec fn input(&self) -> Seq<TokenView> {
        token_views(self.tokens@)
    }

    /// How many tokens have been consumed.
    pub closed spec fn position(&self) -> int {
        self.current as int
    }

    /// The errors recorded so far, as plain values.
    pub closed spec fn reported(&self) -> Seq<ParseErrorView> {
        parse_error_views(self.errors@)
    }

    /// The tokens are closed by an end-of-input token, and the parser stands
    /// at one of them.
    pub closed spec fn wf(&self) -> bool {
        &&& well_ended(self.input())
        &&& self.current < self.tokens.len()
    }

    /// The parser has the input of `before`, has consumed `consumed` tokens
    /// more and has recorded `errors` more.
    pub closed spec fn moved(
        &self,
        before: Self,
        consumed: nat,
        errors: Seq<ParseErrorView>,
    ) -> bool {
        &&& self.wf()
        &&& self.input() == before.input()
        &&& self.current == before.current + consumed
        &&& self.reported() =~= before.reported() + errors
    }

    /// A parser at the first of `tokens`, with no error recorded.
    pub fn new(tokens: Vec<Token>) -> (out: Self)
        requires
            well_ended(token_views(tokens@)),
        ensures
            out.wf(),
            out.input() == token_views(tokens@),
            out.position() == 0,
            out.reported() == Seq::<ParseErrorView>::empty(),
    {
        Self { tokens, current: 0, errors: Vec::new() }
    }

    /// Parses the rest of the tokens into statements. Where a statement
    /// consumed no token at all, the parser steps over one token, so that
    /// it reaches the end of every input.
    pub fn parse(&mut self) -> (out: Vec<Stmt>)
        requires
            old(self).wf(),
        ensures
            final(self).wf(),
            final(self).input() == old(self).input(),
            at_end(final(self).input(), final(self).position()),
            stmt_views(out@) == grammar::program_from(
                old(self).input(),
                old(self).position(),
            ).statements,
            final(self).reported() == old(self).reported() + grammar::program_from(
                old(self).input(),
                old(self).position(),
            ).errors,
    {
        let ghost t = self.input();
        let ghost whole = grammar::program_from(t, self.current as int);
        let ghost mut errs: Seq<ParseErrorView> = Seq::empty();
        let mut statements: Vec<Stmt> = Vec::new();
        assert(self.reported() =~= old(self).reported() + errs);
        while !self.is_at_end()
            invariant
                self.wf(),
                self.input() == t,
                self.reported() == old(self).reported() + errs,
                stmt_views(statements@) + grammar::program_from(t, self.current as int).statements
                    == whole.statements,
                errs + grammar::program_from(t, self.current as int).errors == whole.errors,
            decreases remaining(t, self.current as int),
        {
            let before = self.current;
            let ghost first = grammar::declaration(t, before as int);
            let ghost rest = grammar::program_from(t, before + grammar::stride(t, before as int));
            let ghost done = stmt_views(statements@);
            let statement = self.declaration();
            statements.push(statement);
            if self.current == before {
                self.advance();
            }
            proof {
                assert(stmt_views(statements@) =~= done.push(first.value));
                assert(done.push(first.value) + rest.statements =~= done + (seq![first.value]
                    + rest.statements));
                assert((errs + first.errors) + rest.errors =~= errs + (first.errors + rest.errors));
                assert(self.reported() =~= old(self).reported() + (errs + first.errors));
                errs = errs + first.errors;
            }
        }
        proof {
            assert(stmt_views(statements@) + Seq::<StmtView>::empty() =~= stmt_views(statements@));
            assert(errs + Seq::<ParseErrorView>::empty() =~= errs);
        }
        statements
    }

    fn declaration(&mut self) -> (out: Stmt)
        requires
            old(self).wf(),
        ensures
            final(self).moved(
                *old(self),
                grammar::declaration(old(self).input(), old(self).position()).consumed,
                grammar::declaration(old(self).input(), old(self).position()).errors,
            ),
            out@ == grammar::declaration(old(self).input(), old(self).position()).value,
    {
        let before = self.errors.len();
        if self.match_types(vec![TokenType::Let]) {
            let stmt = self.var_declaration();
            if before < self.errors.len() {
                // the declaration failed: skip to where the next statement may start
                self.synchonise();
            }
            stmt
        } else {
            self.statement()
        }
    }

    fn var_declaration(&mut self) -> (out: Stmt)
        requires
            old(self).wf(),
        ensures
            final(self).moved(
                *old(self),
                grammar::var_declaration(old(self).input(), old(self).position()).consumed,
                grammar::var_declaration(old(self).input(), old(self).position()).errors,
            ),
            out@ == grammar::var_declaration(old(self).input(), old(self).position()).value,
    {
        let ghost t = self.input();
        let ghost at = self.current as int;
        let name = self.consume(TokenType::Identifier, "Expected an identifier");
        let mut initialiser = Expr::Literal(Literal { value: LiteralToken::Null });
        if self.match_types(vec![TokenType::Equal]) {
            initialiser = self.expression();
        }
        self.consume(TokenType::Semicolon, "Expected ; after variable declaration");
        proof {
            let n = grammar::consume(t, at, TokenType::Identifier, "Expected an identifier"@);
            let i = if grammar::check(t, at + n.consumed, TokenType::Equal) {
                grammar::shifted(grammar::expression(t, at + n.consumed + 1), 1)
            } else {
                Parsed { value: null_literal(), consumed: 0, errors: Seq::empty() }
            };
            let s = grammar::consume(
                t,
                at + n.consumed + i.consumed,
                TokenType::Semicolon,
                "Expected ; after variable declaration"@,
            );
            assert(self.reported() =~= old(self).reported() + (n.errors + i.errors + s.errors));
        }
        if let Some(var) = name {
            return Stmt::Let(Let { name: var, initialiser });
        } else {
            proof {
                reveal_strlit("");
                assert(""@ =~= Seq::<char>::empty());
            }
            return Stmt::Let(
                Let {
                    name: Token {
                        token_type: TokenType::Eof,
                        lexeme: "".to_string(),
                        literal: LiteralToken::Null,
                        line: 0,
                    },
                    initialiser,
                },
            );
        }
    }

    fn statement(&mut self) -> (out: Stmt)
        requires
            old(self).wf(),
        ensures
            final(self).moved(
                *old(self),
                grammar::statement(old(self).input(), old(self).position()).consumed,
                grammar::statement(old(self).input(), old(self).position()).errors,
            ),
            out@ == grammar::statement(old(self).input(), old(self).position()).value,
    {
        if self.match_types(vec![TokenType::Print]) {
            self.print_statement()
        } else if self.match_types(vec![TokenType::Import]) {
            self.import_statement()
        } else {
            self.expression_statement()
        }
    }

    fn import_statement(&mut self) -> (out: Stmt)
        requires
            old(self).wf(),
        ensures
            final(self).moved(
                *old(self),
                grammar::import_statement(old(self).input(), old(self).position()).consumed,
                grammar::import_statement(old(self).input(), old(self).position()).errors,
            ),
            out@ == grammar::import_statement(old(self).input(), old(self).position()).value,
    {
        let ghost t = self.input();
        let ghost at = self.current as int;
        let file_name_token = self.consume(TokenType::String, "Expected file name");
        self.consume(TokenType::Semicolon, "Expected ; after file name in import statement");
        proof {
            let n = grammar::consume(t, at, TokenType::String, "Expected file name"@);
            let s = grammar::consume(
                t,
                at + n.consumed,
                TokenType::Semicolon,
                "Expected ; after file name in import statement"@,
            );
            assert(self.reported() =~= old(self).reported() + (n.errors + s.errors));
        }
        if let Some(token) = file_name_token {
            Stmt::Import(Import { file_name: token.lexeme, line: token.line })
        } else {
            Stmt::Print(Print { expression: Expr::Literal(Literal { value: LiteralToken::Null }) })
        }
    }

    fn print_statement(&mut self) -> (out: Stmt)
        requires
            old(self).wf(),
        ensures
            final(self).moved(
                *old(self),
                grammar::print_statement(old(self).input(), old(self).position()).consumed,
                grammar::print_statement(old(self).input(), old(self).position()).errors,
            ),
            out@ == grammar::print_statement(old(self).input(), old(self).position()).value,
    {
        let ghost t = self.input();
        let ghost at = self.current as int;
        let value = self.expression();
        self.consume(TokenType::Semicolon, "Expected ; after value.");
        proof {
            let v = grammar::expression(t, at);
            let s = grammar::consume(
                t,
                at + v.consumed,
                TokenType::Semicolon,
                "Expected ; after value."@,
            );
            assert(self.reported() =~= old(self).reported() + (v.errors + s.errors));
        }
        Stmt::Print(Print { expression: value })
    }

    fn expression_statement(&mut self) -> (out: Stmt)
        requires
            old(self).wf(),
        ensures
            final(self).moved(
                *old(self),
                grammar::expression_statement(old(self).input(), old(self).position()).consumed,
                grammar::expression_statement(old(self).input(), old(self).position()).errors,
            ),
            out@ == grammar::expression_statement(old(self).input(), old(self).position()).value,
    {
        let ghost t = self.input();
        let ghost at = self.current as int;
        let expr = self.expression();
        self.consume(TokenType::Semicolon, "Expected ; after expression");
        proof {
            let v = grammar::expression(t, at);
            let s = grammar::consume(
                t,
                at + v.consumed,
                TokenType::Semicolon,
                "Expected ; after expression"@,
            );
            assert(self.reported() =~= old(self).reported() + (v.errors + s.errors));
        }
        Stmt::Expression(Expression { expression: expr })
    }

    fn expression(&mut self) -> (out: Expr)
        requires
            old(self).wf(),
        ensures
            final(self).moved(
                *old(self),
                grammar::expression(old(self).input(), old(self).position()).consumed,
                grammar::expression(old(self).input(), old(self).position()).errors,
            ),
            out@ == grammar::expression(old(self).input(), old(self).position()).value,
        decreases remaining(old(self).input(), old(self).position()), 10nat,
    {
        assert(grammar::expression(self.input(), self.position()) == grammar::equality(
            self.input(),
            self.position(),
        )) by {
            grammar::lemma_expression(self.input(), self.position());
        }
        self.equality()
    }

    // BINARY EXPRESSIONS:
    fn equality(&mut self) -> (out: Expr)
        requires
            old(self).wf(),
        ensures
            final(self).moved(
                *old(self),
                grammar::equality(old(self).input(), old(self).position()).consumed,
                grammar::equality(old(self).input(), old(self).position()).errors,
            ),
            out@ == grammar::equality(old(self).input(), old(self).position()).value,
        decreases remaining(old(self).input(), old(self).position()), 9nat,
    {
        let ghost t = self.input();
        let ghost at = self.current as int;
        let ghost whole = grammar::equality(t, at);
        let mut expr = self.comparison();
        let ghost mut errs = grammar::comparison(t, at).errors;
        assert(whole == grammar::equality_rest(
            t,
            at,
            Parsed { value: expr@, consumed: (self.current - at) as nat, errors: errs },
        )) by {
            grammar::lemma_equality(t, at);
        }
        while self.match_types(vec![TokenType::BangEqual, TokenType::EqualEqual])
            invariant
                self.wf(),
                self.input() == t,
                old(self).input() == t,
                old(self).current == at <= self.current,
                self.reported() == old(self).reported() + errs,
                whole == grammar::equality_rest(
                    t,
                    at,
                    Parsed { value: expr@, consumed: (self.current - at) as nat, errors: errs },
                ),
            decreases remaining(t, self.current as int),
        {
            let ghost here = self.current - 1;
            let ghost left = Parsed { value: expr@, consumed: (here - at) as nat, errors: errs };
            let ghost right_spec = grammar::comparison(t, here + 1);
            let operator = self.previous();
            let right = self.comparison();
            expr = Expr::Binary(Binary { left: Box::new(expr), operator, right: Box::new(right) });
            proof {
                assert(self.reported() =~= old(self).reported() + (errs + right_spec.errors));
                errs = errs + right_spec.errors;
                assert(grammar::equality_rest(t, at, left) == grammar::equality_rest(
                    t,
                    at,
                    Parsed { value: expr@, consumed: (self.current - at) as nat, errors: errs },
                )) by {
                    grammar::lemma_equality_rest(t, at, left);
                }
            }
        }
        let ghost last = Parsed {
            value: expr@,
            consumed: (self.current - at) as nat,
            errors: errs,
        };
        assert(whole == last) by {
            grammar::lemma_equality_rest(t, at, last);
        }
        expr
    }

    fn comparison(&mut self) -> (out: Expr)
        requires
            old(self).wf(),
        ensures
            final(self).moved(
                *old(self),
                grammar::comparison(old(self).input(), old(self).position()).consumed,
                grammar::comparison(old(self).input(), old(self).position()).errors,
            ),
            out@ == grammar::comparison(old(self).input(), old(self).position()).value,
        decreases remaining(old(self).input(), old(self).position()), 7nat,
    {
        let ghost t = self.input();
        let ghost at = self.current as int;
        let ghost whole = grammar::comparison(t, at);
        let mut expr = self.term();
        let ghost mut errs = grammar::term(t, at).errors;
        assert(whole == grammar::comparison_rest(
            t,
            at,
            Parsed { value: expr@, consumed: (self.current - at) as nat, errors: errs },
        )) by {
            grammar::lemma_comparison(t, at);
        }
        while self.match_types(
            vec![
                TokenType::Greater,
                TokenType::GreaterEqual,
                TokenType::Less,
                TokenType::LessEqual,
            ],
        )
            invariant
                self.wf(),
                self.input() == t,
                old(self).input() == t,
                old(self).current == at <= self.current,
                self.reported() == old(self).reported() + errs,
                whole == grammar::comparison_rest(
                    t,
                    at,
                    Parsed { value: expr@, consumed: (self.current - at) as nat, errors: errs },
                ),
            decreases remaining(t, self.current as int),
        {
            let ghost here = self.current - 1;
            let ghost left = Parsed { value: expr@, consumed: (here - at) as nat, errors: errs };
            let ghost right_spec = grammar::term(t, here + 1);
            let operator = self.previous();
            let right = self.term();
            expr = Expr::Binary(Binary { left: Box::new(expr), operator, right: Box::new(right) });
            proof {
                assert(self.reported() =~= old(self).reported() + (errs + right_spec.errors));
                errs = errs + right_spec.errors;
                assert(grammar::comparison_rest(t, at, left) == grammar::comparison_rest(
                    t,
                    at,
                    Parsed { value: expr@, consumed: (self.current - at) as nat, errors: errs },
                )) by {
                    grammar::lemma_comparison_rest(t, at, left);
                }
            }
        }
        let ghost last = Parsed {
            value: expr@,
            consumed: (self.current - at) as nat,
            errors: errs,
        };
        assert(whole == last) by {
            grammar::lemma_comparison_rest(t, at, last);
        }
        expr
    }

    fn term(&mut self) -> (out: Expr)
        requires
            old(self).wf(),
        ensures
            final(self).moved(
                *old(self),
                grammar::term(old(self).input(), old(self).position()).consumed,
                grammar::term(old(self).input(), old(self).position()).errors,
            ),
            out@ == grammar::term(old(self).input(), old(self).position()).value,
        decreases remaining(old(self).input(), old(self).position()), 5nat,
    {
        let ghost t = self.input();
        let ghost at = self.current as int;
        let ghost whole = grammar::term(t, at);
        let mut expr = self.factor();
        let ghost mut errs = grammar::factor(t, at).errors;
        assert(whole == grammar::term_rest(
            t,
            at,
            Parsed { value: expr@, consumed: (self.current - at) as nat, errors: errs },
        )) by {
            grammar::lemma_term(t, at);
        }
        while self.match_types(vec![TokenType::Plus, TokenType::Minus])
            invariant
                self.wf(),
                self.input() == t,
                old(self).input() == t,
                old(self).current == at <= self.current,
                self.reported() == old(self).reported() + errs,
                whole == grammar::term_rest(
                    t,
                    at,
                    Parsed { value: expr@, consumed: (self.current - at) as nat, errors: errs },
                ),
            decreases remaining(t, self.current as int),
        {
            let ghost here = self.current - 1;
            let ghost left = Parsed { value: expr@, consumed: (here - at) as nat, errors: errs };
            let ghost right_spec = grammar::factor(t, here + 1);
            let operator = self.previous();
            let right = self.factor();
            expr = Expr::Binary(Binary { left: Box::new(expr), operator, right: Box::new(right) });
            proof {
                assert(self.reported() =~= old(self).reported() + (errs + right_spec.errors));
                errs = errs + right_spec.errors;
                assert(grammar::term_rest(t, at, left) == grammar::term_rest(
                    t,
                    at,
                    Parsed { value: expr@, consumed: (self.current - at) as nat, errors: errs },
                )) by {
                    grammar::lemma_term_rest(t, at, left);
                }
            }
        }
        let ghost last = Parsed {
            value: expr@,
            consumed: (self.current - at) as nat,
            errors: errs,
        };
        assert(whole == last) by {
            grammar::lemma_term_rest(t, at, last);
        }
        expr
    }

    fn factor(&mut self) -> (out: Expr)
        requires
            old(self).wf(),
        ensures
            final(self).moved(
                *old(self),
                grammar::factor(old(self).input(), old(self).position()).consumed,
                grammar::factor(old(self).input(), old(self).position()).errors,
            ),
            out@ == grammar::factor(old(self).input(), old(self).position()).value,
        decreases remaining(old(self).input(), old(self).position()), 3nat,
    {
        let ghost t = self.input();
        let ghost at = self.current as int;
        let ghost whole = grammar::factor(t, at);
        let mut expr = self.unary();
        let ghost mut errs = grammar::unary(t, at).errors;
        assert(whole == grammar::factor_rest(
            t,
            at,
            Parsed { value: expr@, consumed: (self.current - at) as nat, errors: errs },
        )) by {
            grammar::lemma_factor(t, at);
        }
        while self.match_types(vec![TokenType::Slash, TokenType::Star])
            invariant
                self.wf(),
                self.input() == t,
                old(self).input() == t,
                old(self).current == at <= self.current,
                self.reported() == old(self).reported() + errs,
                whole == grammar::factor_rest(
                    t,
                    at,
                    Parsed { value: expr@, consumed: (self.current - at) as nat, errors: errs },
                ),
            decreases remaining(t, self.current as int),
        {
            let ghost here = self.current - 1;
            let ghost left = Parsed { value: expr@, consumed: (here - at) as nat, errors: errs };
            let ghost right_spec = grammar::unary(t, here + 1);
            let operator = self.previous();
            let right = self.unary();
            expr = Expr::Binary(Binary { left: Box::new(expr), operator, right: Box::new(right) });
            proof {
                assert(self.reported() =~= old(self).reported() + (errs + right_spec.errors));
                errs = errs + right_spec.errors;
                assert(grammar::factor_rest(t, at, left) == grammar::factor_rest(
                    t,
                    at,
                    Parsed { value: expr@, consumed: (self.current - at) as nat, errors: errs },
                )) by {
                    grammar::lemma_factor_rest(t, at, left);
                }
            }
        }
        let ghost last = Parsed {
            value: expr@,
            consumed: (self.current - at) as nat,
            errors: errs,
        };
        assert(whole == last) by {
            grammar::lemma_factor_rest(t, at, last);
        }
        expr
    }

    // UNARY AND PRIMARY EXPRESSIONS:
    fn unary(&mut self) -> (out: Expr)
        requires
            old(self).wf(),
        ensures
            final(self).moved(
                *old(self),
                grammar::unary(old(self).input(), old(self).position()).consumed,
                grammar::unary(old(self).input(), old(self).position()).errors,
            ),
            out@ == grammar::unary(old(self).input(), old(self).position()).value,
        decreases remaining(old(self).input(), old(self).position()), 1nat,
    {
        let ghost t = self.input();
        let ghost at = self.current as int;
        if self.match_types(vec![TokenType::Bang, TokenType::Minus]) {
            let operator = self.previous();
            let right = self.unary();
            assert(grammar::unary(t, at) == Parsed {
                value: ExprView::Unary { operator: t[at], right: Box::new(right@) },
                consumed: 1 + grammar::unary(t, at + 1).consumed,
                errors: grammar::unary(t, at + 1).errors,
            }) by {
                grammar::lemma_unary(t, at);
            }
            return Expr::Unary(Unary { operator, right: Box::new(right) });
        }
        assert(grammar::unary(t, at) == grammar::primary(t, at)) by {
            grammar::lemma_unary(t, at);
        }
        self.primary()
    }

    fn primary(&mut self) -> (out: Expr)
        requires
            old(self).wf(),
        ensures
            final(self).moved(
                *old(self),
                grammar::primary(old(self).input(), old(self).position()).consumed,
                grammar::primary(old(self).input(), old(self).position()).errors,
            ),
            out@ == grammar::primary(old(self).input(), old(self).position()).value,
        decreases remaining(old(self).input(), old(self).position()), 0nat,
    {
        let ghost t = self.input();
        let ghost at = self.current as int;
        let ghost whole = grammar::primary(t, at);
        if self.match_types(vec![TokenType::False]) {
            assert(whole == Parsed {
                value: grammar::literal(LiteralView::Bool(false)),
                consumed: 1,
                errors: Seq::empty(),
            }) by {
                grammar::lemma_primary(t, at);
            }
            return Expr::Literal(Literal { value: LiteralToken::Bool(false) });
        } else if self.match_types(vec![TokenType::True]) {
            assert(whole == Parsed {
                value: grammar::literal(LiteralView::Bool(true)),
                consumed: 1,
                errors: Seq::empty(),
            }) by {
                grammar::lemma_primary(t, at);
            }
            return Expr::Literal(Literal { value: LiteralToken::Bool(true) });
        } else if self.match_types(vec![TokenType::Null]) {
            assert(whole == Parsed {
                value: grammar::literal(LiteralView::Null),
                consumed: 1,
                errors: Seq::empty(),
            }) by {
                grammar::lemma_primary(t, at);
            }
            return Expr::Literal(Literal { value: LiteralToken::Null });
        } else if self.match_types(vec![TokenType::Number, TokenType::String]) {
            assert(whole == Parsed {
                value: grammar::literal(t[at].literal),
                consumed: 1,
                errors: Seq::empty(),
            }) by {
                grammar::lemma_primary(t, at);
            }
            return Expr::Literal(Literal { value: self.previous().literal });
        } else if self.match_types(vec![TokenType::LeftParen]) {
            let expr = self.expression();
            self.consume(TokenType::RightParen, "Expected \")\" after expression.");
            proof {
                let inner = grammar::expression(t, at + 1);
                let close = grammar::consume(
                    t,
                    at + 1 + inner.consumed,
                    TokenType::RightParen,
                    "Expected \")\" after expression."@,
                );
                assert(self.reported() =~= old(self).reported() + (inner.errors + close.errors));
                assert(whole == Parsed {
                    value: ExprView::Grouping { expression: Box::new(inner.value) },
                    consumed: 1 + inner.consumed + close.consumed,
                    errors: inner.errors + close.errors,
                }) by {
                    grammar::lemma_primary(t, at);
                }
            }
            return Expr::Grouping(Grouping { expression: Box::new(expr) });
        } else if self.match_types(vec![TokenType::Identifier]) {
            assert(whole == Parsed {
                value: ExprView::Variable { name: t[at] },
                consumed: 1,
                errors: Seq::empty(),
            }) by {
                grammar::lemma_primary(t, at);
            }
            return Expr::Variable(Variable { name: self.previous() });
        } else {
            assert(whole == Parsed {
                value: grammar::literal(LiteralView::Null),
                consumed: 0,
                errors: seq![ParseErrorView { token: t[at], msg: "Unexpected token"@ }],
            }) by {
                grammar::lemma_primary(t, at);
            }
            let ghost before = self.reported();
            let error = ParseError {
                token: self.tokens[self.current].clone(),
                msg: "Unexpected token".to_string(),
            };
            self.errors.push(error);
            assert(self.reported() =~= before + seq![error@]);
            Expr::Literal(Literal { value: LiteralToken::Null })
        }
    }

    // HELPERS:
    /// Consumes the next token if it is of kind `token_type`, and records
    /// an error with `msg` otherwise.
    fn consume(&mut self, token_type: TokenType, msg: &str) -> (out: Option<Token>)
        requires
            old(self).wf(),
        ensures
            final(self).moved(
                *old(self),
                grammar::consume(
                    old(self).input(),
                    old(self).position(),
                    token_type,
                    msg@,
                ).consumed,
                grammar::consume(
                    old(self).input(),
                    old(self).position(),
                    token_type,
                    msg@,
                ).errors,
            ),
            match out {
                Some(token) => grammar::consume(
                    old(self).input(),
                    old(self).position(),
                    token_type,
                    msg@,
                ).found == Some(token@),
                None => grammar::consume(
                    old(self).input(),
                    old(self).position(),
                    token_type,
                    msg@,
                ).found is None,
            },
    {
        let ghost before = self.reported();
        if self.check(token_type) {
            assert(before =~= before + Seq::<ParseErrorView>::empty());
            return Some(self.advance());
        } else {
            let error = ParseError { token: self.peek(), msg: msg.to_string() };
            self.errors.push(error);
            assert(self.reported() =~= before + seq![error@]);
            return None;
        }
    }

    /// The token consumed last.
    fn previous(&self) -> (out: Token)
        requires
            self.wf(),
            self.current >= 1,
        ensures
            out@ == self.input()[self.current - 1],
    {
        self.tokens[self.current - 1].clone()
    }

    /// Consumes the next token if its kind is one of `token_types`.
    fn match_types(&mut self, token_types: Vec<TokenType>) -> (out: bool)
        requires
            old(self).wf(),
        ensures
            out == (!at_end(old(self).input(), old(self).position()) && token_types@.contains(
                old(self).input()[old(self).position()].token_type,
            )),
            final(self).moved(
                *old(self),
                if out {
                    1nat
                } else {
                    0nat
                },
                Seq::empty(),
            ),
    {
        let ghost before = self.reported();
        assert(before =~= before + Seq::<ParseErrorView>::empty());
        let mut i: usize = 0;
        while i < token_types.len()
            invariant
                self.wf(),
                *self == *old(self),
                i <= token_types@.len(),
                forall|j: int|
                    0 <= j < i ==> !grammar::check(
                        self.input(),
                        self.current as int,
                        #[trigger] token_types@[j],
                    ),
            decreases token_types@.len() - i,
        {
            if self.check(token_types[i]) {
                self.advance();
                return true;
            }
            i += 1;
        }
        return false;
    }

    /// Whether the next token is of kind `t`, and not the end of the input.
    fn check(&self, t: TokenType) -> (out: bool)
        requires
            self.wf(),
        ensures
            out == grammar::check(self.input(), self.position(), t),
    {
        if self.is_at_end() {
            return false;
        }
        self.tokens[self.current].token_type == t
    }

    /// Consumes the next token, unless it is the end of the input, and returns
    /// the token consumed last.
    fn advance(&mut self) -> (out: Token)
        requires
            old(self).wf(),
            old(self).current >= 1 || !at_end(old(self).input(), old(self).position()),
        ensures
            final(self).moved(
                *old(self),
                if at_end(old(self).input(), old(self).position()) {
                    0nat
                } else {
                    1nat
                },
                Seq::empty(),
            ),
            out@ == final(self).input()[final(self).position() - 1],
    {
        let ghost before = self.reported();
        assert(before =~= before + Seq::<ParseErrorView>::empty());
        if !self.is_at_end() {
            self.current += 1;
        }
        self.previous()
    }

    /// Hands out the errors recorded.
    pub fn into_errors(self) -> (out: Vec<ParseError>)
        ensures
            parse_error_views(out@) == self.reported(),
    {
        self.errors
    }

    /// Whether the next token is the end of the input.
    fn is_at_end(&self) -> (out: bool)
        requires
            self.wf(),
        ensures
            out == at_end(self.input(), self.position()),
    {
        match self.tokens[self.current].token_type {
            TokenType::Eof => true,
            _ => false,
        }
    }

    /// The next token.
    fn peek(&self) -> (out: Token)
        requires
            self.wf(),
        ensures
            out@ == self.input()[self.position()],
    {
        self.tokens[self.current].clone()
    }

    /// Skips the token at which a declaration failed and those behind it, up
    /// to the first that follows a semicolon or starts a statement.
    fn synchonise(&mut self)
        requires
            old(self).wf(),
            old(self).current >= 1,
        ensures
            final(self).moved(
                *old(self),
                grammar::synchronised(old(self).input(), old(self).position()),
                Seq::empty(),
            ),
    {
        let ghost t = self.input();
        let ghost at = self.current as int;
        let ghost before = self.reported();
        assert(before =~= before + Seq::<ParseErrorView>::empty());
        self.advance();
        while !self.is_at_end()
            invariant
                self.wf(),
                self.input() == t,
                old(self).input() == t,
                old(self).current == at,
                self.reported() == before,
                old(self).reported() == before,
                1 <= self.current,
                at <= self.current,
                grammar::synchronised(t, at) == (self.current - at) + grammar::skipped_from(
                    t,
                    self.current as int,
                ),
            decreases remaining(t, self.current as int),
        {
            match self.previous().token_type {
                TokenType::Semicolon => return ,
                _ => {},
            }
            match self.peek().token_type {
                TokenType::Jungle
                | TokenType::Gorilla
                | TokenType::Let
                | TokenType::For
                | TokenType::If
                | TokenType::While
                | TokenType::Print
                | TokenType::Return => return ,
                _ => {},
            }
            self.advance();
        }
    }
}

} // verus!
