//! The three kinds of error and the one line each of them reports.

use vstd::prelude::*;

pub mod parse_error;
pub mod runtime_error;
pub mod syntax_error;

verus! {

/// An error that can be reported as one line of text.
pub trait Error {
    /// The line that [`Error::report`] produces.
    spec fn report_text(&self) -> Seq<char>;

    /// The line to show for this error, without a line break.
    fn report(&self) -> (line: String)
        ensures
            line@ == self.report_text(),
    ;
}

} // verus!
