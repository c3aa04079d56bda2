//! Imports: from the name written in an import statement to the statements
//! of the file it names.
//!
//! The file itself is read by the embedding program; what is decided here is
//! which name to ask for and what to make of the answer.

use vstd::prelude::*;
use crate::ast::grammar;
use crate::ast::parser::Parser;
use crate::ast::statements::{stmt_views, Stmt, StmtView};
use crate::errors::runtime_error::{RuntimeError, RuntimeErrorView};
use crate::errors::syntax_error::{SyntaxError, SyntaxErrorView};
use crate::syntax::scanner::{lemma_scan_ends, scan, Scanner};
use crate::text::chars_of;
use crate::text::string_of;

verus! {

/// Why an import failed.
#[derive(Debug)]
pub enum ImportError {
    /// The file holds a lexical error: the first one found.
    Syntax(SyntaxError),
    /// The file could not be read.
    FileNotFound(RuntimeError),
}

/// What an [`ImportError`] holds, as plain values.
pub enum ImportErrorView {
    Syntax(SyntaxErrorView),
    FileNotFound(RuntimeErrorView),
}

/// The error for a file that could not be read. It is tied to no line of
/// any source, which is why its line is 0.
pub open spec fn not_found() -> RuntimeErrorView {
    RuntimeErrorView { line: 0, msg: "Could not find import"@ }
}

impl View for ImportError {
    type V = ImportErrorView;

    open spec fn view(&self) -> ImportErrorView {
        match self {
            ImportError::Syntax(e) => ImportErrorView::Syntax(e@),
            ImportError::FileNotFound(e) => ImportErrorView::FileNotFound(e@),
        }
    }
}

/// The embedding program's reader answers for every name.
pub open spec fn reads_all<R: Fn(String) -> Option<String>>(read: R) -> bool {
    forall|name: String| call_requires(read, (name,))
}

/// Whether `c` belongs to a file name: quotes and backslashes do not.
pub open spec fn in_file_name(c: char) -> bool {
    c != '\\' && c != '"'
}

/// `raw` without its quotes and backslashes.
pub open spec fn clean_name(raw: Seq<char>) -> Seq<char>
    decreases raw.len(),
{
    if raw.len() == 0 {
        Seq::empty()
    } else if in_file_name(raw.last()) {
        clean_name(raw.drop_last()).push(raw.last())
    } else {
        clean_name(raw.drop_last())
    }
}

/// The statements of a file whose reading gave `content`: none where the
/// file could not be read, where it is too long to index or where it holds a
/// lexical error. Errors of the parser do not fail an import: the statements
/// are those that the parser made of the file.
pub open spec fn statement_stream(content: Option<Seq<char>>) -> Result<
    Seq<StmtView>,
    ImportErrorView,
> {
    match content {
        None => Err(ImportErrorView::FileNotFound(not_found())),
        Some(text) => if text.len() >= usize::MAX {
            Err(ImportErrorView::FileNotFound(not_found()))
        } else if scan(text).errors.len() > 0 {
            Err(ImportErrorView::Syntax(scan(text).errors[0]))
        } else {
            Ok(grammar::program(scan(text).tokens).statements)
        },
    }
}

/// The view of what reading a file gave.
pub open spec fn content_view(content: Option<String>) -> Option<Seq<char>> {
    match content {
        Some(text) => Some(text@),
        None => None,
    }
}

/// The view of a statement stream.
pub open spec fn stream_view(stream: Result<Vec<Stmt>, ImportError>) -> Result<
    Seq<StmtView>,
    ImportErrorView,
> {
    match stream {
        Ok(statements) => Ok(stmt_views(statements@)),
        Err(e) => Err(e@),
    }
}

/// Every character of a cleaned name belongs to a file name.
pub proof fn lemma_clean_name_is_clean(raw: Seq<char>)
    ensures
        forall|i: int|
            0 <= i < clean_name(raw).len() ==> in_file_name(#[trigger] clean_name(raw)[i]),
    decreases raw.len(),
{
    if raw.len() > 0 {
        lemma_clean_name_is_clean(raw.drop_last());
        let rest = clean_name(raw.drop_last());
        assert forall|i: int| 0 <= i < clean_name(raw).len() implies in_file_name(
            #[trigger] clean_name(raw)[i],
        ) by {
            if i < rest.len() {
                assert(clean_name(raw)[i] == rest[i]);
            }
        }
    }
}

/// A name without quotes and backslashes is its own cleaned name.
pub proof fn lemma_clean_name_keeps(raw: Seq<char>)
    requires
        forall|i: int| 0 <= i < raw.len() ==> in_file_name(#[trigger] raw[i]),
    ensures
        clean_name(raw) == raw,
    decreases raw.len(),
{
    if raw.len() > 0 {
        lemma_clean_name_keeps(raw.drop_last());
        assert(raw.drop_last().push(raw.last()) =~= raw);
    }
}

/// Cleaning a file name twice is cleaning it once.
pub proof fn clean_name_idempotent(raw: Seq<char>)
    ensures
        clean_name(clean_name(raw)) == clean_name(raw),
{
    lemma_clean_name_is_clean(raw);
    lemma_clean_name_keeps(clean_name(raw));
}

/// The statements of the file that `file_name` names. The name is asked of
/// `read` without its quotes and backslashes.
pub fn create_statement_stream<R: Fn(String) -> Option<String>>(file_name: &str, read: &R) -> (out:
    Result<Vec<Stmt>, ImportError>)
    requires
        reads_all(*read),
    ensures
        exists|name: String, content: Option<String>|
            name@ == clean_name(file_name@) && #[trigger] call_ensures(*read, (name,), content)
                && stream_view(out) == statement_stream(content_view(content)),
{
    let file = find_file(clean_file_name(file_name), read);
    proof {
        clean_name_idempotent(file_name@);
    }
    match file {
        Ok(content) => statements_of(Some(content)),
        Err(e) => Err(ImportError::FileNotFound(e)),
    }
}

/// The statements of a file whose reading gave `content`.
pub fn statements_of(content: Option<String>) -> (out: Result<Vec<Stmt>, ImportError>)
    ensures
        stream_view(out) == statement_stream(content_view(content)),
{
    match content {
        Some(text) => {
            if text.as_str().unicode_len() >= usize::MAX {
                let msg = "Could not find import".to_string();
                return Err(ImportError::FileNotFound(RuntimeError { line: 0, msg }));
            }
            proof {
                lemma_scan_ends(text@, 0, 1);
            }
            let mut scanner = Scanner::new(text);
            scanner.scan_tokens();
            let (tokens, errors) = scanner.finish();
            if errors.len() > 0 {
                return Err(ImportError::Syntax(errors[0].clone()));
            }
            let mut parser = Parser::new(tokens);
            let stmts = parser.parse();
            Ok(stmts)
        },
        None => {
            let msg = "Could not find import".to_string();
            Err(ImportError::FileNotFound(RuntimeError { line: 0, msg }))
        },
    }
}

/// Asks `read` for the file that `file_name` names.
fn find_file<R: Fn(String) -> Option<String>>(file_name: String, read: &R) -> (out: Result<
    String,
    RuntimeError,
>)
    requires
        reads_all(*read),
    ensures
        exists|name: String, content: Option<String>|
            name@ == clean_name(file_name@) && #[trigger] call_ensures(*read, (name,), content)
                && match out {
                Ok(text) => content == Some(text),
                Err(e) => content is None && e@ == not_found(),
            },
{
    let name = clean_file_name(file_name.as_str());
    let file = read(name);
    match file {
        Some(content) => Ok(content),
        None => Err(RuntimeError { line: 0, msg: "Could not find import".to_string() }),
    }
}

/// `raw_name` without its quotes and backslashes.
pub fn clean_file_name(raw_name: &str) -> (out: String)
    ensures
        out@ == clean_name(raw_name@),
{
    let raw = chars_of(raw_name);
    let mut clean: Vec<char> = Vec::new();
    let mut i: usize = 0;
    while i < raw.len()
        invariant
            i <= raw@.len(),
            clean@ == clean_name(raw@.take(i as int)),
        decreases raw@.len() - i,
    {
        let c = raw[i];
        assert(raw@.take(i + 1).drop_last() =~= raw@.take(i as int));
        if c != '\\' && c != '"' {
            clean.push(c);
        }
        i += 1;
    }
    assert(raw@.take(raw@.len() as int) =~= raw@);
    string_of(&clean)
}

} // verus!
