//! Errors found by the scanner.

use vstd::prelude::*;
use vstd::string::StringExecFns;
use super::Error;
use crate::text::{decimal, decimal_text, string_of};

verus! {

/// The message of an [`UnexpectedToken`].
pub open spec fn unexpected_token_message(token: char, line: usize) -> Seq<char> {
    "Unexpected token "@ + seq![token] + " on line "@ + decimal_text(line as nat)
}

/// The message of an [`UnterminatedString`].
pub open spec fn unterminated_string_message(line: usize) -> Seq<char> {
    "Unterminated string on line "@ + decimal_text(line as nat)
}

/// An error found by the scanner.
#[derive(Debug)]
pub enum SyntaxError {
    UnexpectedToken(UnexpectedToken),
    UnterminatedString(UnterminatedString),
}

/// A character that begins no token.
#[derive(Debug)]
pub struct UnexpectedToken {
    line: usize,
    message: String,
    token: char,
}

/// A string literal that the end of the input cut short.
#[derive(Debug)]
pub struct UnterminatedString {
    line: usize,
    message: String,
}

/// What a [`SyntaxError`] holds, as plain values. The message follows from
/// them.
pub enum SyntaxErrorView {
    UnexpectedToken { token: char, line: usize },
    UnterminatedString { line: usize },
}

impl SyntaxErrorView {
    /// The message of the error.
    pub open spec fn message(self) -> Seq<char> {
        match self {
            SyntaxErrorView::UnexpectedToken { token, line } => unexpected_token_message(
                token,
                line,
            ),
            SyntaxErrorView::UnterminatedString { line } => unterminated_string_message(line),
        }
    }
}

impl UnexpectedToken {
    #[verifier::type_invariant]
    spec fn well_formed(&self) -> bool {
        self.message@ == unexpected_token_message(self.token, self.line)
    }

    /// The line on which the character stands.
    pub closed spec fn spec_line(&self) -> usize {
        self.line
    }

    /// The offending character.
    pub closed spec fn spec_token(&self) -> char {
        self.token
    }

    /// The message, as a sequence of characters.
    pub closed spec fn spec_message(&self) -> Seq<char> {
        self.message@
    }

    /// The error for the character `token`, found on line `line`.
    pub fn new(token: char, line: usize) -> (out: Self)
        ensures
            out.spec_token() == token,
            out.spec_line() == line,
            out.spec_message() == unexpected_token_message(token, line),
    {
        let mut one: Vec<char> = Vec::new();
        one.push(token);
        let mut message = "Unexpected token ".to_string();
        message.append(string_of(&one).as_str());
        message.append(" on line ");
        message.append(decimal(line).as_str());
        assert(one@ == seq![token]);
        Self { token, line, message }
    }

    /// The line on which the character stands.
    pub fn line(&self) -> (out: usize)
        ensures
            out == self.spec_line(),
    {
        self.line
    }

    /// The offending character.
    pub fn token(&self) -> (out: char)
        ensures
            out == self.spec_token(),
    {
        self.token
    }

    /// "Unexpected token", the character and its line.
    pub fn message(&self) -> (out: &str)
        ensures
            out@ == self.spec_message(),
            out@ == unexpected_token_message(self.spec_token(), self.spec_line()),
    {
        proof {
            use_type_invariant(self);
        }
        self.message.as_str()
    }
}

impl UnterminatedString {
    #[verifier::type_invariant]
    spec fn well_formed(&self) -> bool {
        self.message@ == unterminated_string_message(self.line)
    }

    /// The line on which the string opens.
    pub closed spec fn spec_line(&self) -> usize {
        self.line
    }

    /// The message, as a sequence of characters.
    pub closed spec fn spec_message(&self) -> Seq<char> {
        self.message@
    }

    /// The error for a string literal that opens on line `line`.
    pub fn new(line: usize) -> (out: Self)
        ensures
            out.spec_line() == line,
            out.spec_message() == unterminated_string_message(line),
    {
        let mut message = "Unterminated string on line ".to_string();
        message.append(decimal(line).as_str());
        Self { line, message }
    }

    /// The line on which the string opens.
    pub fn line(&self) -> (out: usize)
        ensures
            out == self.spec_line(),
    {
        self.line
    }

    /// "Unterminated string" and the line.
    pub fn message(&self) -> (out: &str)
        ensures
            out@ == self.spec_message(),
            out@ == unterminated_string_message(self.spec_line()),
    {
        proof {
            use_type_invariant(self);
        }
        self.message.as_str()
    }
}

impl View for SyntaxError {
    type V = SyntaxErrorView;

    open spec fn view(&self) -> SyntaxErrorView {
        match self {
            SyntaxError::UnexpectedToken(e) => SyntaxErrorView::UnexpectedToken {
                token: e.spec_token(),
                line: e.spec_line(),
            },
            SyntaxError::UnterminatedString(e) => SyntaxErrorView::UnterminatedString {
                line: e.spec_line(),
            },
        }
    }
}

impl Clone for UnexpectedToken {
    fn clone(&self) -> (out: Self)
        ensures
            out == *self,
    {
        proof {
            use_type_invariant(self);
        }
        UnexpectedToken { line: self.line, message: self.message.clone(), token: self.token }
    }
}

impl Clone for UnterminatedString {
    fn clone(&self) -> (out: Self)
        ensures
            out == *self,
    {
        proof {
            use_type_invariant(self);
        }
        UnterminatedString { line: self.line, message: self.message.clone() }
    }
}

impl Clone for SyntaxError {
    fn clone(&self) -> (out: Self)
        ensures
            out == *self,
    {
        match self {
            SyntaxError::UnexpectedToken(e) => SyntaxError::UnexpectedToken(e.clone()),
            SyntaxError::UnterminatedString(e) => SyntaxError::UnterminatedString(e.clone()),
        }
    }
}

impl Error for UnexpectedToken {
    open spec fn report_text(&self) -> Seq<char> {
        "Syntax Error: "@ + unexpected_token_message(self.spec_token(), self.spec_line())
    }

    fn report(&self) -> (line: String) {
        let mut line = "Syntax Error: ".to_string();
        line.append(self.message());
        line
    }
}

impl Error for UnterminatedString {
    open spec fn report_text(&self) -> Seq<char> {
        "Syntax Error: "@ + unterminated_string_message(self.spec_line())
    }

    fn report(&self) -> (line: String) {
        let mut line = "Syntax Error: ".to_string();
        line.append(self.message());
        line
    }
}

impl Error for SyntaxError {
    open spec fn report_text(&self) -> Seq<char> {
        "Syntax Error: "@ + self@.message()
    }

    fn report(&self) -> (line: String) {
        match self {
            SyntaxError::UnexpectedToken(e) => e.report(),
            SyntaxError::UnterminatedString(e) => e.report(),
        }
    }
}

} // verus!
