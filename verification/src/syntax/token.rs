//! Tokens, their kinds and the literal values they carry.

use vstd::prelude::*;
use crate::number::Numeral;

verus! {

/// The kind of a token.
#[derive(Debug, Clone, Copy, PartialEq, Eq, Structural)]
pub enum TokenType {
    // Single-character tokens.
    LeftParen,
    RightParen,
    LeftBrace,
    RightBrace,
    Comma,
    Dot,
    Minus,
    Plus,
    Semicolon,
    Slash,
    Star,
    // One or two character tokens.
    Bang,
    BangEqual,
    Equal,
    EqualEqual,
    Greater,
    GreaterEqual,
    Less,
    LessEqual,
    // Literals.
    Identifier,
    String,
    Number,
    // Keywords.
    And,
    Jungle,
    Else,
    False,
    Gorilla,
    For,
    If,
    Null,
    Or,
    Print,
    Return,
    Super,
    This,
    True,
    Let,
    While,
    Import,
    Eof,
}

/// The value attached to a literal token.
#[derive(Debug)]
pub enum Literal {
    String(String),
    Number(Numeral),
    Bool(bool),
    Null,
}

/// What a [`Literal`] holds, as plain values.
pub enum LiteralView {
    String(Seq<char>),
    Number(Seq<char>),
    Bool(bool),
    Null,
}

impl View for Literal {
    type V = LiteralView;

    open spec fn view(&self) -> LiteralView {
        match self {
            Literal::String(s) => LiteralView::String(s@),
            Literal::Number(n) => LiteralView::Number(n@),
            Literal::Bool(b) => LiteralView::Bool(*b),
            Literal::Null => LiteralView::Null,
        }
    }
}

impl Clone for Literal {
    fn clone(&self) -> (out: Self)
        ensures
            out == *self,
    {
        match self {
            Literal::String(s) => Literal::String(s.clone()),
            Literal::Number(n) => Literal::Number(n.clone()),
            Literal::Bool(b) => Literal::Bool(*b),
            Literal::Null => Literal::Null,
        }
    }
}

/// A classified lexeme with the line it was read on.
#[derive(Debug)]
pub struct Token {
    pub token_type: TokenType,
    pub lexeme: String,
    pub literal: Literal,
    pub line: usize,
}

/// What a [`Token`] holds, as plain values.
pub struct TokenView {
    pub token_type: TokenType,
    pub lexeme: Seq<char>,
    pub literal: LiteralView,
    pub line: usize,
}

impl View for Token {
    type V = TokenView;

    open spec fn view(&self) -> TokenView {
        TokenView {
            token_type: self.token_type,
            lexeme: self.lexeme@,
            literal: self.literal@,
            line: self.line,
        }
    }
}

impl Token {
    /// A token from its four parts.
    pub fn new(token_type: TokenType, lexeme: String, literal: Literal, line: usize) -> (out: Self)
        ensures
            out.token_type == token_type,
            out.lexeme == lexeme,
            out.literal == literal,
            out.line == line,
    {
        Self { token_type, lexeme, literal, line }
    }
}

impl Clone for Token {
    fn clone(&self) -> (out: Self)
        ensures
            out == *self,
    {
        Token {
            token_type: self.token_type,
            lexeme: self.lexeme.clone(),
            literal: self.literal.clone(),
            line: self.line,
        }
    }
}

/// Two tokens are equal when they are of the same kind, whatever their text.
impl PartialEq for Token {
    fn eq(&self, other: &Token) -> (out: bool) {
        self.token_type == other.token_type
    }
}

impl vstd::std_specs::cmp::PartialEqSpecImpl for Token {
    open spec fn obeys_eq_spec() -> bool {
        true
    }

    open spec fn eq_spec(&self, other: &Token) -> bool {
        self.token_type == other.token_type
    }
}

} // verus!
