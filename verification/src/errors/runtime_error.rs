//! Errors raised while a program runs.

use vstd::prelude::*;
use vstd::string::StringExecFns;
use super::Error;
use crate::text::{decimal, decimal_text};

verus! {

/// An error raised by the interpreter: what went wrong, and the line of the
/// operator, the variable or the import at which it did.
#[derive(Debug)]
pub struct RuntimeError {
    pub line: usize,
    pub msg: String,
}

/// What a [`RuntimeError`] holds, as plain values.
pub struct RuntimeErrorView {
    pub line: usize,
    pub msg: Seq<char>,
}

impl View for RuntimeError {
    type V = RuntimeErrorView;

    open spec fn view(&self) -> RuntimeErrorView {
        RuntimeErrorView { line: self.line, msg: self.msg@ }
    }
}

impl Clone for RuntimeError {
    fn clone(&self) -> (out: Self)
        ensures
            out == *self,
    {
        RuntimeError { line: self.line, msg: self.msg.clone() }
    }
}

impl Error for RuntimeError {
    open spec fn report_text(&self) -> Seq<char> {
        "Runtime error on line "@ + decimal_text(self.line as nat) + ": "@ + self.msg@
    }

    fn report(&self) -> (line: String) {
        let mut line = "Runtime error on line ".to_string();
        line.append(decimal(self.line).as_str());
        line.append(": ");
        line.append(self.msg.as_str());
        line
    }
}

} // verus!
