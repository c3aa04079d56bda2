//! Errors found by the parser.

use vstd::prelude::*;
use vstd::string::StringExecFns;
use super::Error;
use crate::syntax::token::{Token, TokenView};
use crate::text::{decimal, decimal_text};

verus! {

/// A token that the grammar did not allow where it stands, with what was
/// expected there.
#[derive(Debug)]
pub struct ParseError {
    pub token: Token,
    pub msg: String,
}

/// What a [`ParseError`] holds, as plain values.
pub struct ParseErrorView {
    pub token: TokenView,
    pub msg: Seq<char>,
}

impl View for ParseError {
    type V = ParseErrorView;

    open spec fn view(&self) -> ParseErrorView {
        ParseErrorView { token: self.token@, msg: self.msg@ }
    }
}

impl Error for ParseError {
    open spec fn report_text(&self) -> Seq<char> {
        "Parse Error on line "@ + decimal_text(self.token.line as nat) + ": "@ + self.msg@
    }

    fn report(&self) -> (line: String) {
        let mut line = "Parse Error on line ".to_string();
        line.append(decimal(self.token.line).as_str());
        line.append(": ");
        line.append(self.msg.as_str());
        line
    }
}

} // verus!
