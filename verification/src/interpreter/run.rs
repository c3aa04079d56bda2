//! Running a program from its source text, and showing what it printed.

use vstd::prelude::*;
use super::semantics::{runs, State};
use crate::logic::witness;
use super::value::{answers_all, Value, ValueView};
use super::file_resolver::reads_all;
use super::{outcome_views, Interpreter, MAX_IMPORT_DEPTH};
use crate::ast::grammar;
use crate::ast::parser::Parser;
use crate::errors::runtime_error::RuntimeError;
use crate::errors::syntax_error::SyntaxError;
use crate::errors::Error;
use crate::number::NumberOp;
use crate::syntax::scanner::{error_views, lemma_scan_ends, scan, token_views, Scanner};
use crate::text::{quoted, quoted_text};

verus! {

/// `out` is a possible result of running the program `source`.
///
/// A source with a lexical error is not parsed at all: the result is its
/// lexical errors. Any other source is parsed and what the parser made of it
/// is run, whether or not the parser found errors: the result is what the
/// program has shown.
pub open spec fn ran<N: Fn(NumberOp) -> u64, R: Fn(String) -> Option<String>>(
    source: Seq<char>,
    numbers: N,
    read: R,
    out: Result<Vec<Result<Value, RuntimeError>>, Vec<SyntaxError>>,
) -> bool {
    match out {
        Err(errors) => errors@.len() > 0 && error_views(errors@) == scan(source).errors,
        Ok(output) => scan(source).errors.len() == 0 && exists|
            bindings: Map<Seq<char>, ValueView>,
        | #[trigger]
            witness(bindings) && runs(
                grammar::program(scan(source).tokens).statements,
                numbers,
                read,
                MAX_IMPORT_DEPTH as nat,
                State::start(),
                State { bindings, output: outcome_views(output@) },
            ),
    }
}

/// Scans, parses and runs the program `file`, with a fresh interpreter.
pub fn run_file<N: Fn(NumberOp) -> u64, R: Fn(String) -> Option<String>>(
    file: String,
    numbers: N,
    read: R,
) -> (out: Result<Vec<Result<Value, RuntimeError>>, Vec<SyntaxError>>)
    requires
        file@.len() < usize::MAX,
        answers_all(numbers),
        reads_all(read),
    ensures
        ran(file@, numbers, read, out),
{
    proof {
        lemma_scan_ends(file@, 0, 1);
    }
    let mut scanner = Scanner::new(file);
    scanner.scan_tokens();
    let (tokens, errors) = scanner.finish();
    let ghost source = file@;
    assert(token_views(tokens@) =~= scan(source).tokens);
    assert(error_views(errors@) =~= scan(source).errors);
    if errors.len() > 0 {
        return Err(errors);
    }
    let mut parser = Parser::new(tokens);
    let ast = parser.parse();
    let mut interpreter = Interpreter::new(numbers, read);
    interpreter.interpret_statements(ast);
    let ghost end = interpreter.state();
    let output = interpreter.into_output();
    assert(end == State { bindings: end.bindings, output: outcome_views(output@) });
    assert(runs(
        grammar::program(scan(source).tokens).statements,
        numbers,
        read,
        MAX_IMPORT_DEPTH as nat,
        State::start(),
        State { bindings: end.bindings, output: outcome_views(output@) },
    ));
    assert(witness(end.bindings));
    Ok(output)
}

/// Runs one line as a program of its own.
pub fn run_line<N: Fn(NumberOp) -> u64, R: Fn(String) -> Option<String>>(
    line: String,
    numbers: N,
    read: R,
) -> (out: Result<Vec<Result<Value, RuntimeError>>, Vec<SyntaxError>>)
    requires
        line@.len() < usize::MAX,
        answers_all(numbers),
        reads_all(read),
    ensures
        ran(line@, numbers, read, out),
{
    run_file(line, numbers, read)
}

/// The line that shows `val`: a string between quotes, a number as `show`
/// writes it, a boolean by its name, the absent value as `Null`, and an
/// error as its report.
pub fn print_value<S: Fn(u64) -> String>(val: Result<Value, RuntimeError>, show: &S) -> (out:
    String)
    requires
        forall|n: u64| call_requires(*show, (n,)),
    ensures
        match val {
            Ok(Value::String(s)) => out@ == quoted_text(s@),
            Ok(Value::Number(n)) => call_ensures(*show, (n,), out),
            Ok(Value::Bool(b)) => out@ == if b {
                "true"@
            } else {
                "false"@
            },
            Ok(Value::Null) => out@ == "Null"@,
            Err(e) => out@ == e.report_text(),
        },
{
    match val {
        Ok(val) => match val {
            Value::String(s) => quoted(s.as_str()),
            Value::Number(n) => show(n),
            Value::Bool(b) => if b {
                "true".to_string()
            } else {
                "false".to_string()
            },
            Value::Null => "Null".to_string(),
        },
        Err(e) => e.report(),
    }
}

} // verus!
