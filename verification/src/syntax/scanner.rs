//! The scanner: one pass over the source text, left to right, with one
//! character of lookahead.
//!
//! [`scan_from`] says which tokens and which errors a text holds; the
//! [`Scanner`] computes them.

use vstd::prelude::*;
use vstd::hash_map::StringHashMap;
use super::token::{Literal, LiteralView, Token, TokenType, TokenView};
use crate::errors::syntax_error::{
    SyntaxError,
    SyntaxErrorView,
    UnexpectedToken,
    UnterminatedString,
};
use crate::number::{numeral_with_whole, Numeral};
use crate::text::{
    alphabetic,
    alphanumeric,
    chars_of,
    digit,
    is_alphabetic,
    is_alphanumeric,
    is_digit,
    slice_of,
};

verus! {

/// The reserved words and the kind of token each of them is.
pub open spec fn keywords() -> Map<Seq<char>, TokenType> {
    Map::<Seq<char>, TokenType>::empty().insert("and"@, TokenType::And).insert(
        "Jungle"@,
        TokenType::Jungle,
    ).insert("else"@, TokenType::Else).insert("false"@, TokenType::False).insert(
        "for"@,
        TokenType::For,
    ).insert("gorilla"@, TokenType::Gorilla).insert("if"@, TokenType::If).insert(
        "null"@,
        TokenType::Null,
    ).insert("or"@, TokenType::Or).insert("print"@, TokenType::Print).insert(
        "return"@,
        TokenType::Return,
    ).insert("super"@, TokenType::Super).insert("this"@, TokenType::This).insert(
        "true"@,
        TokenType::True,
    ).insert("let"@, TokenType::Let).insert("while"@, TokenType::While).insert(
        "import"@,
        TokenType::Import,
    )
}

/// The kind of token that the word `text` is.
pub open spec fn word_kind(text: Seq<char>) -> TokenType {
    if keywords().contains_key(text) {
        keywords()[text]
    } else {
        TokenType::Identifier
    }
}

/// The sets of characters that the scanner reads in runs.
pub enum Run {
    /// Decimal digits.
    Digits,
    /// Letters and digits.
    Word,
    /// Everything up to the end of the line.
    Comment,
    /// Everything up to the closing quote.
    Quoted,
}

impl Run {
    /// Whether a run of this kind goes on over `c`.
    pub open spec fn holds(self, c: char) -> bool {
        match self {
            Run::Digits => is_digit(c),
            Run::Word => is_alphanumeric(c),
            Run::Comment => c != '\n',
            Run::Quoted => c != '"',
        }
    }
}

/// Where the longest run of `run` characters that starts at `at` ends.
pub open spec fn run_end(src: Seq<char>, at: int, run: Run) -> int
    decreases src.len() - at,
{
    if 0 <= at < src.len() && run.holds(src[at]) {
        run_end(src, at + 1, run)
    } else {
        at
    }
}

/// How many line breaks stand in `src` from `from` up to, not including,
/// `to`.
pub open spec fn newlines(src: Seq<char>, from: int, to: int) -> nat
    decreases to - from,
{
    if from >= to {
        0
    } else {
        newlines(src, from, to - 1) + if src[to - 1] == '\n' {
            1nat
        } else {
            0nat
        }
    }
}

/// What the scanner makes of the text that starts at one position.
pub struct Lexed {
    /// The position after the text consumed.
    pub end: int,
    /// The line counter after the text consumed.
    pub line: usize,
    /// The token that the text is, unless it is skipped or in error.
    pub token: Option<TokenView>,
    /// The error that the text is, if it is one.
    pub error: Option<SyntaxErrorView>,
}

/// Text that yields nothing: blanks, comments, line breaks.
pub open spec fn skipped(end: int, line: usize) -> Lexed {
    Lexed { end, line, token: None, error: None }
}

/// The token of kind `token_type` whose lexeme is `src` from `at` to `end`.
pub open spec fn plain(
    src: Seq<char>,
    at: int,
    end: int,
    line: usize,
    token_type: TokenType,
) -> Lexed {
    Lexed {
        end,
        line,
        token: Some(
            TokenView {
                token_type,
                lexeme: src.subrange(at, end),
                literal: LiteralView::Null,
                line,
            },
        ),
        error: None,
    }
}

/// Whether the character after position `at` is `c`.
pub open spec fn followed_by(src: Seq<char>, at: int, c: char) -> bool {
    at + 1 < src.len() && src[at + 1] == c
}

/// An operator that may be followed by `=`, in which case it is `double`.
pub open spec fn operator(
    src: Seq<char>,
    at: int,
    line: usize,
    double: TokenType,
    single: TokenType,
) -> Lexed {
    if followed_by(src, at, '=') {
        plain(src, at, at + 2, line, double)
    } else {
        plain(src, at, at + 1, line, single)
    }
}

/// A string literal that opens at `at`. The lexeme runs to the closing quote,
/// the value is what stands between the quotes, and the token is on the line
/// where the literal ends. Where the input ends first, the token holds the
/// text that is there and the error names the line where the literal opens.
pub open spec fn string_literal(src: Seq<char>, at: int, line: usize) -> Lexed {
    let close = run_end(src, at + 1, Run::Quoted);
    let last = (line + newlines(src, at + 1, close)) as usize;
    if close >= src.len() {
        Lexed {
            end: close,
            line: last,
            token: Some(
                TokenView {
                    token_type: TokenType::String,
                    lexeme: src.subrange(at, close),
                    literal: LiteralView::String(src.subrange(at + 1, close)),
                    line: last,
                },
            ),
            error: Some(SyntaxErrorView::UnterminatedString { line }),
        }
    } else {
        Lexed {
            end: close + 1,
            line: last,
            token: Some(
                TokenView {
                    token_type: TokenType::String,
                    lexeme: src.subrange(at, close + 1),
                    literal: LiteralView::String(src.subrange(at + 1, close)),
                    line: last,
                },
            ),
            error: None,
        }
    }
}

/// Where the numeral that starts at `at` ends: after its digits and, where a
/// point and a digit follow them, after the digits behind the point.
pub open spec fn numeral_end(src: Seq<char>, at: int) -> int {
    let whole = run_end(src, at + 1, Run::Digits);
    if whole < src.len() && src[whole] == '.' && whole + 1 < src.len() && is_digit(src[whole + 1]) {
        run_end(src, whole + 1, Run::Digits)
    } else {
        whole
    }
}

/// A numeric literal that starts at `at`.
pub open spec fn number_literal(src: Seq<char>, at: int, line: usize) -> Lexed {
    let end = numeral_end(src, at);
    Lexed {
        end,
        line,
        token: Some(
            TokenView {
                token_type: TokenType::Number,
                lexeme: src.subrange(at, end),
                literal: LiteralView::Number(src.subrange(at, end)),
                line,
            },
        ),
        error: None,
    }
}

/// A keyword or an identifier that starts at `at`.
pub open spec fn word(src: Seq<char>, at: int, line: usize) -> Lexed {
    let end = run_end(src, at + 1, Run::Word);
    plain(src, at, end, line, word_kind(src.subrange(at, end)))
}

/// What the scanner makes of the text at position `at`, read on line `line`.
pub open spec fn lex(src: Seq<char>, at: int, line: usize) -> Lexed {
    let c = src[at];
    if c == '(' {
        plain(src, at, at + 1, line, TokenType::LeftParen)
    } else if c == ')' {
        plain(src, at, at + 1, line, TokenType::RightParen)
    } else if c == '{' {
        plain(src, at, at + 1, line, TokenType::LeftBrace)
    } else if c == '}' {
        plain(src, at, at + 1, line, TokenType::RightBrace)
    } else if c == ',' {
        plain(src, at, at + 1, line, TokenType::Comma)
    } else if c == '.' {
        plain(src, at, at + 1, line, TokenType::Dot)
    } else if c == '-' {
        plain(src, at, at + 1, line, TokenType::Minus)
    } else if c == '+' {
        plain(src, at, at + 1, line, TokenType::Plus)
    } else if c == ';' {
        plain(src, at, at + 1, line, TokenType::Semicolon)
    } else if c == '*' {
        plain(src, at, at + 1, line, TokenType::Star)
    } else if c == '!' {
        operator(src, at, line, TokenType::BangEqual, TokenType::Bang)
    } else if c == '=' {
        operator(src, at, line, TokenType::EqualEqual, TokenType::Equal)
    } else if c == '<' {
        operator(src, at, line, TokenType::LessEqual, TokenType::Less)
    } else if c == '>' {
        operator(src, at, line, TokenType::GreaterEqual, TokenType::Greater)
    } else if c == '/' {
        if followed_by(src, at, '/') {
            skipped(run_end(src, at + 2, Run::Comment), line)
        } else {
            plain(src, at, at + 1, line, TokenType::Slash)
        }
    } else if c == ' ' || c == '\r' || c == '\t' {
        skipped(at + 1, line)
    } else if c == '\n' {
        skipped(at + 1, (line + 1) as usize)
    } else if c == '"' {
        string_literal(src, at, line)
    } else if is_digit(c) {
        number_literal(src, at, line)
    } else if is_alphabetic(c) {
        word(src, at, line)
    } else {
        Lexed {
            end: at + 1,
            line,
            token: None,
            error: Some(SyntaxErrorView::UnexpectedToken { token: c, line }),
        }
    }
}

/// The token that closes every scan.
pub open spec fn eof_token(line: usize) -> TokenView {
    TokenView {
        token_type: TokenType::Eof,
        lexeme: Seq::<char>::empty(),
        literal: LiteralView::Null,
        line,
    }
}

/// The outcome of a scan.
pub struct Scanned {
    /// The tokens, in the order of the text, closed by the end-of-input token.
    pub tokens: Seq<TokenView>,
    /// For each token, where its lexeme starts and ends in the text.
    pub spans: Seq<(int, int)>,
    /// The errors, in the order of the text.
    pub errors: Seq<SyntaxErrorView>,
}

/// The zero or one items of an option, as a sequence.
pub open spec fn items<T>(o: Option<T>) -> Seq<T> {
    match o {
        Some(t) => seq![t],
        None => Seq::<T>::empty(),
    }
}

/// A run ends between its start and the end of the text, and every
/// character of it belongs to the run.
pub proof fn lemma_run_end(src: Seq<char>, at: int, run: Run)
    requires
        0 <= at <= src.len(),
    ensures
        at <= run_end(src, at, run) <= src.len(),
        forall|i: int| at <= i < run_end(src, at, run) ==> run.holds(#[trigger] src[i]),
        run_end(src, at, run) < src.len() ==> !run.holds(src[run_end(src, at, run)]),
    decreases src.len() - at,
{
    if at < src.len() && run.holds(src[at]) {
        lemma_run_end(src, at + 1, run);
    }
}

/// No stretch of text holds more line breaks than characters.
pub proof fn lemma_newlines_bound(src: Seq<char>, from: int, to: int)
    ensures
        newlines(src, from, to) <= if from <= to {
            to - from
        } else {
            0
        },
    decreases to - from,
{
    if from < to {
        lemma_newlines_bound(src, from, to - 1);
    }
}

/// Every step of the scanner consumes at least one character and stays inside
/// the text, and the line counter never runs ahead of the position.
pub proof fn lemma_lex_advances(src: Seq<char>, at: int, line: usize)
    requires
        0 <= at < src.len(),
    ensures
        at < lex(src, at, line).end <= src.len(),
        line <= at + 1 && src.len() < usize::MAX ==> line <= lex(src, at, line).line <= lex(
            src,
            at,
            line,
        ).end + 1,
{
    let c = src[at];
    lemma_run_end(src, at + 1, Run::Quoted);
    lemma_run_end(src, at + 1, Run::Digits);
    lemma_run_end(src, at + 1, Run::Word);
    if at + 2 <= src.len() {
        lemma_run_end(src, at + 2, Run::Comment);
    }
    let whole = run_end(src, at + 1, Run::Digits);
    if whole + 1 <= src.len() {
        lemma_run_end(src, whole + 1, Run::Digits);
    }
    lemma_newlines_bound(src, at + 1, run_end(src, at + 1, Run::Quoted));
}

/// The tokens and errors of `src` from position `at` on, where the line
/// counter stands at `line`.
pub open spec fn scan_from(src: Seq<char>, at: int, line: usize) -> Scanned
    decreases src.len() - at,
{
    if 0 <= at < src.len() {
        let step = lex(src, at, line);
        proof {
            lemma_lex_advances(src, at, line);
        }
        let rest = scan_from(src, step.end, step.line);
        Scanned {
            tokens: items(step.token) + rest.tokens,
            spans: items(
                if step.token is Some {
                    Some((at, step.end))
                } else {
                    None
                },
            ) + rest.spans,
            errors: items(step.error) + rest.errors,
        }
    } else {
        Scanned {
            tokens: seq![eof_token(line)],
            spans: seq![(src.len() as int, src.len() as int)],
            errors: Seq::<SyntaxErrorView>::empty(),
        }
    }
}

/// Every scan is closed by the end-of-input token.
pub proof fn lemma_scan_ends(src: Seq<char>, at: int, line: usize)
    ensures
        scan_from(src, at, line).tokens.len() > 0,
        scan_from(src, at, line).tokens.last().token_type == TokenType::Eof,
    decreases src.len() - at,
{
    if 0 <= at < src.len() {
        let step = lex(src, at, line);
        lemma_lex_advances(src, at, line);
        lemma_scan_ends(src, step.end, step.line);
    }
}

/// The token that one step of the scanner yields has the text that the step
/// consumed as its lexeme.
pub proof fn lemma_lex_lexeme(src: Seq<char>, at: int, line: usize)
    requires
        0 <= at < src.len(),
    ensures
        lex(src, at, line).token matches Some(token) ==> token.lexeme == src.subrange(
            at,
            lex(src, at, line).end,
        ),
{
}

/// Round trip: every token of a scan has as its lexeme exactly the text of
/// the source between the two positions at which the scanner began and ended
/// it. These stretches lie inside the text, in the order of the tokens, and
/// do not overlap.
pub proof fn lexemes_are_source_text(src: Seq<char>, at: int, line: usize)
    requires
        0 <= at <= src.len(),
    ensures
        scan_from(src, at, line).spans.len() == scan_from(src, at, line).tokens.len(),
        forall|i: int|
            0 <= i < scan_from(src, at, line).tokens.len() ==> {
                &&& at <= (#[trigger] scan_from(src, at, line).spans[i]).0
                &&& scan_from(src, at, line).spans[i].0 <= scan_from(src, at, line).spans[i].1
                    <= src.len()
                &&& scan_from(src, at, line).tokens[i].lexeme == src.subrange(
                    scan_from(src, at, line).spans[i].0,
                    scan_from(src, at, line).spans[i].1,
                )
            },
        forall|i: int, j: int|
            0 <= i < j < scan_from(src, at, line).tokens.len() ==> (#[trigger] scan_from(
                src,
                at,
                line,
            ).spans[i]).1 <= (#[trigger] scan_from(src, at, line).spans[j]).0,
    decreases src.len() - at,
{
    let whole = scan_from(src, at, line);
    if at < src.len() {
        let step = lex(src, at, line);
        let rest = scan_from(src, step.end, step.line);
        lemma_lex_advances(src, at, line);
        lemma_lex_lexeme(src, at, line);
        lexemes_are_source_text(src, step.end, step.line);
        if step.token is Some {
            assert forall|i: int| 0 <= i < whole.tokens.len() implies {
                &&& at <= (#[trigger] whole.spans[i]).0
                &&& whole.spans[i].0 <= whole.spans[i].1 <= src.len()
                &&& whole.tokens[i].lexeme == src.subrange(whole.spans[i].0, whole.spans[i].1)
            } by {
                if i > 0 {
                    assert(whole.spans[i] == rest.spans[i - 1]);
                    assert(whole.tokens[i] == rest.tokens[i - 1]);
                }
            }
            assert forall|i: int, j: int| 0 <= i < j < whole.tokens.len() implies (
            #[trigger] whole.spans[i]).1 <= (#[trigger] whole.spans[j]).0 by {
                assert(whole.spans[j] == rest.spans[j - 1]);
                if i > 0 {
                    assert(whole.spans[i] == rest.spans[i - 1]);
                }
            }
        } else {
            assert(whole.tokens =~= rest.tokens);
            assert(whole.spans =~= rest.spans);
        }
    } else {
        assert(whole.tokens[0].lexeme =~= src.subrange(src.len() as int, src.len() as int));
    }
}

/// The tokens and errors of a whole text.
pub open spec fn scan(src: Seq<char>) -> Scanned {
    scan_from(src, 0, 1)
}

/// The tokens of `tokens`, as plain values.
pub open spec fn token_views(tokens: Seq<Token>) -> Seq<TokenView> {
    tokens.map_values(|t: Token| t@)
}

/// The errors of `errors`, as plain values.
pub open spec fn error_views(errors: Seq<SyntaxError>) -> Seq<SyntaxErrorView> {
    errors.map_values(|e: SyntaxError| e@)
}

/// A scanner over one source text.
pub struct Scanner {
    source: Vec<char>,
    pub tokens: Vec<Token>,
    start: usize,
    current: usize,
    line: usize,
    pub errors: Vec<SyntaxError>,
    reserved_keywords: StringHashMap<TokenType>,
}

impl Scanner {
    /// The text being scanned.
    pub closed spec fn text(&self) -> Seq<char> {
        self.source@
    }

    /// How many characters have been consumed.
    pub closed spec fn position(&self) -> int {
        self.current as int
    }

    /// Where the lexeme being read starts.
    pub closed spec fn mark(&self) -> int {
        self.start as int
    }

    /// The line on which the next character stands.
    pub closed spec fn line(&self) -> usize {
        self.line
    }

    /// The position inside the text and the keyword table are as the scanner
    /// set them up.
    pub closed spec fn wf(&self) -> bool {
        &&& self.start <= self.current <= self.source@.len() < usize::MAX
        &&& self.line <= self.current + 1
        &&& self.reserved_keywords@ == keywords()
    }

    /// The tokens found so far, as plain values.
    pub closed spec fn found(&self) -> Seq<TokenView> {
        token_views(self.tokens@)
    }

    /// The errors found so far, as plain values.
    pub closed spec fn failed(&self) -> Seq<SyntaxErrorView> {
        error_views(self.errors@)
    }

    /// A scanner at the start of `source`, on line 1, with nothing found.
    pub fn new(source: String) -> (out: Self)
        requires
            source@.len() < usize::MAX,
        ensures
            out.wf(),
            out.text() == source@,
            out.position() == 0,
            out.line() == 1,
            out.found() == Seq::<TokenView>::empty(),
            out.failed() == Seq::<SyntaxErrorView>::empty(),
    {
        let mut reserved_keywords: StringHashMap<TokenType> = StringHashMap::new();
        reserved_keywords.insert("and".to_string(), TokenType::And);
        reserved_keywords.insert("Jungle".to_string(), TokenType::Jungle);
        reserved_keywords.insert("else".to_string(), TokenType::Else);
        reserved_keywords.insert("false".to_string(), TokenType::False);
        reserved_keywords.insert("for".to_string(), TokenType::For);
        reserved_keywords.insert("gorilla".to_string(), TokenType::Gorilla);
        reserved_keywords.insert("if".to_string(), TokenType::If);
        reserved_keywords.insert("null".to_string(), TokenType::Null);
        reserved_keywords.insert("or".to_string(), TokenType::Or);
        reserved_keywords.insert("print".to_string(), TokenType::Print);
        reserved_keywords.insert("return".to_string(), TokenType::Return);
        reserved_keywords.insert("super".to_string(), TokenType::Super);
        reserved_keywords.insert("this".to_string(), TokenType::This);
        reserved_keywords.insert("true".to_string(), TokenType::True);
        reserved_keywords.insert("let".to_string(), TokenType::Let);
        reserved_keywords.insert("while".to_string(), TokenType::While);
        reserved_keywords.insert("import".to_string(), TokenType::Import);
        Self {
            source: chars_of(source.as_str()),
            tokens: Vec::new(),
            start: 0,
            current: 0,
            line: 1,
            errors: Vec::new(),
            reserved_keywords,
        }
    }

    /// Hands out the tokens and the errors found.
    pub fn finish(self) -> (out: (Vec<Token>, Vec<SyntaxError>))
        ensures
            token_views(out.0@) == self.found(),
            error_views(out.1@) == self.failed(),
    {
        (self.tokens, self.errors)
    }

    /// Scans the rest of the text and closes the tokens with the
    /// end-of-input token.
    pub fn scan_tokens(&mut self)
        requires
            old(self).wf(),
        ensures
            final(self).wf(),
            final(self).text() == old(self).text(),
            final(self).position() == final(self).text().len(),
            final(self).found() == old(self).found() + scan_from(
                old(self).text(),
                old(self).position(),
                old(self).line(),
            ).tokens,
            final(self).failed() == old(self).failed() + scan_from(
                old(self).text(),
                old(self).position(),
                old(self).line(),
            ).errors,
    {
        let ghost src = self.source@;
        let ghost whole = scan_from(src, self.current as int, self.line);
        while !self.is_at_end()
            invariant
                self.wf(),
                self.source@ == src,
                old(self).found() + whole.tokens == self.found() + scan_from(
                    src,
                    self.current as int,
                    self.line,
                ).tokens,
                old(self).failed() + whole.errors == self.failed() + scan_from(
                    src,
                    self.current as int,
                    self.line,
                ).errors,
            decreases src.len() - self.current,
        {
            self.start = self.current;
            let ghost step = lex(src, self.current as int, self.line);
            let ghost rest = scan_from(src, step.end, step.line);
            let ghost before_tokens = self.found();
            let ghost before_errors = self.failed();
            proof {
                lemma_lex_advances(src, self.current as int, self.line);
            }
            self.scan_token();
            assert(before_tokens + (items(step.token) + rest.tokens) =~= (before_tokens + items(
                step.token,
            )) + rest.tokens);
            assert(before_errors + (items(step.error) + rest.errors) =~= (before_errors + items(
                step.error,
            )) + rest.errors);
        }
        let ghost before_tokens = self.found();
        self.tokens.push(Token::new(TokenType::Eof, "".to_string(), Literal::Null, self.line));
        proof {
            assert(""@ =~= Seq::<char>::empty()) by {
                reveal_strlit("");
            }
            assert(self.found() =~= before_tokens.push(eof_token(self.line)));
            assert(before_tokens.push(eof_token(self.line)) =~= before_tokens + seq![
                eof_token(self.line),
            ]);
        }
    }

    /// Scans one token, one stretch of skipped text or one error.
    fn scan_token(&mut self)
        requires
            old(self).wf(),
            old(self).start == old(self).current,
            old(self).current < old(self).source@.len(),
        ensures
            final(self).wf(),
            final(self).source@ == old(self).source@,
            final(self).current == lex(
                old(self).source@,
                old(self).current as int,
                old(self).line,
            ).end,
            final(self).line == lex(
                old(self).source@,
                old(self).current as int,
                old(self).line,
            ).line,
            final(self).found() == old(self).found() + items(
                lex(old(self).source@, old(self).current as int, old(self).line).token,
            ),
            final(self).failed() == old(self).failed() + items(
                lex(old(self).source@, old(self).current as int, old(self).line).error,
            ),
    {
        let ghost before_tokens = self.found();
        let ghost before_errors = self.failed();
        let c = self.advance();
        match c {
            '(' => self.add_token(TokenType::LeftParen),
            ')' => self.add_token(TokenType::RightParen),
            '{' => self.add_token(TokenType::LeftBrace),
            '}' => self.add_token(TokenType::RightBrace),
            ',' => self.add_token(TokenType::Comma),
            '.' => self.add_token(TokenType::Dot),
            '-' => self.add_token(TokenType::Minus),
            '+' => self.add_token(TokenType::Plus),
            ';' => self.add_token(TokenType::Semicolon),
            '*' => self.add_token(TokenType::Star),
            '!' => match self.is_compound('=') {
                true => self.add_token(TokenType::BangEqual),
                false => self.add_token(TokenType::Bang),
            },
            '=' => match self.is_compound('=') {
                true => self.add_token(TokenType::EqualEqual),
                false => self.add_token(TokenType::Equal),
            },
            '<' => match self.is_compound('=') {
                true => self.add_token(TokenType::LessEqual),
                false => self.add_token(TokenType::Less),
            },
            '>' => match self.is_compound('=') {
                true => self.add_token(TokenType::GreaterEqual),
                false => self.add_token(TokenType::Greater),
            },
            '/' => {
                if self.is_compound('/') {
                    let ghost from = self.current;
                    while self.peek() != '\n' && !self.is_at_end()
                        invariant
                            self.wf(),
                            self.source@ == old(self).source@,
                            self.line == old(self).line,
                            self.found() == old(self).found(),
                            self.failed() == old(self).failed(),
                            from <= self.current,
                            run_end(self.source@, from as int, Run::Comment) == run_end(
                                self.source@,
                                self.current as int,
                                Run::Comment,
                            ),
                        decreases self.source@.len() - self.current,
                    {
                        self.advance();
                    }
                    assert(self.found() =~= before_tokens + Seq::<TokenView>::empty());
                } else {
                    self.add_token(TokenType::Slash);
                }
            },
            ' ' => {
                assert(self.found() =~= before_tokens + Seq::<TokenView>::empty());
            },
            '\r' => {
                assert(self.found() =~= before_tokens + Seq::<TokenView>::empty());
            },
            '\t' => {
                assert(self.found() =~= before_tokens + Seq::<TokenView>::empty());
            },
            '\n' => {
                self.line += 1;
                assert(self.found() =~= before_tokens + Seq::<TokenView>::empty());
            },
            '"' => {
                self.handle_string();
                return ;
            },
            _ => {
                // `digit` accepts the ten decimal digits and nothing else.
                if digit(c) {
                    self.handle_number();
                } else if alphabetic(c) {
                    self.identifier();
                } else {
                    let error = SyntaxError::UnexpectedToken(UnexpectedToken::new(c, self.line));
                    self.errors.push(error);
                    assert(self.failed() =~= before_errors + seq![
                        SyntaxErrorView::UnexpectedToken { token: c, line: self.line },
                    ]);
                    assert(self.found() =~= before_tokens + Seq::<TokenView>::empty());
                    return ;
                }
            },
        };
        assert(self.failed() =~= before_errors + Seq::<SyntaxErrorView>::empty());
    }

    // HELPERS:
    /// Adds the token of kind `token_type` whose lexeme is the text consumed
    /// since the start of the current token.
    fn add_token(&mut self, token_type: TokenType)
        requires
            old(self).wf(),
        ensures
            final(self).wf(),
            final(self).source@ == old(self).source@,
            final(self).start == old(self).start,
            final(self).current == old(self).current,
            final(self).line == old(self).line,
            final(self).failed() == old(self).failed(),
            final(self).found() == old(self).found() + seq![
                TokenView {
                    token_type,
                    lexeme: old(self).source@.subrange(
                        old(self).start as int,
                        old(self).current as int,
                    ),
                    literal: LiteralView::Null,
                    line: old(self).line,
                },
            ],
    {
        let ghost before = self.found();
        let lexeme = slice_of(&self.source, self.start, self.current);
        let token = Token::new(token_type, lexeme, Literal::Null, self.line);
        self.tokens.push(token);
        assert(self.found() =~= before + seq![token@]);
    }

    /// Adds a token that carries a value.
    fn add_literal(&mut self, token_type: TokenType, literal: Literal)
        requires
            old(self).wf(),
        ensures
            final(self).wf(),
            final(self).source@ == old(self).source@,
            final(self).start == old(self).start,
            final(self).current == old(self).current,
            final(self).line == old(self).line,
            final(self).failed() == old(self).failed(),
            final(self).found() == old(self).found() + seq![
                TokenView {
                    token_type,
                    lexeme: old(self).source@.subrange(
                        old(self).start as int,
                        old(self).current as int,
                    ),
                    literal: literal@,
                    line: old(self).line,
                },
            ],
    {
        let ghost before = self.found();
        let lexeme = slice_of(&self.source, self.start, self.current);
        let token = Token::new(token_type, lexeme, literal, self.line);
        self.tokens.push(token);
        assert(self.found() =~= before + seq![token@]);
    }

    /// Whether the whole text has been consumed.
    pub fn is_at_end(&self) -> (out: bool)
        ensures
            out == (self.position() >= self.text().len()),
    {
        self.current >= self.source.len()
    }

    /// Consumes one character and returns it; at the end of the text returns
    /// the NUL character and consumes nothing.
    pub fn advance(&mut self) -> (out: char)
        requires
            old(self).wf(),
        ensures
            final(self).wf(),
            final(self).text() == old(self).text(),
            final(self).line() == old(self).line(),
            final(self).found() == old(self).found(),
            final(self).failed() == old(self).failed(),
            final(self).mark() == old(self).mark(),
            old(self).position() >= old(self).text().len() ==> {
                &&& out == '\0'
                &&& final(self).position() == old(self).position()
            },
            old(self).position() < old(self).text().len() ==> {
                &&& out == old(self).text()[old(self).position()]
                &&& final(self).position() == old(self).position() + 1
            },
    {
        if self.is_at_end() {
            return '\0';
        }
        let next_char = self.source[self.current];
        self.current += 1;
        next_char
    }

    /// Consumes the next character if it is `expected`: the second half of
    /// `!=`, `==`, `<=`, `>=` and `//`.
    fn is_compound(&mut self, expected: char) -> (out: bool)
        requires
            old(self).wf(),
        ensures
            final(self).wf(),
            final(self).source@ == old(self).source@,
            final(self).line == old(self).line,
            final(self).found() == old(self).found(),
            final(self).failed() == old(self).failed(),
            final(self).start == old(self).start,
            out == {
                &&& old(self).current < old(self).source@.len()
                &&& old(self).source@[old(self).current as int] == expected
            },
            final(self).current == if out {
                old(self).current + 1
            } else {
                old(self).current as int
            },
    {
        if self.is_at_end() {
            return false;
        } else if self.source[self.current] != expected {
            return false;
        }
        self.current += 1;
        true
    }

    /// The next character, or NUL at the end of the text.
    fn peek(&self) -> (out: char)
        ensures
            out == if self.current >= self.source@.len() {
                '\0'
            } else {
                self.source@[self.current as int]
            },
    {
        if self.is_at_end() {
            return '\0';
        } else {
            return self.source[self.current];
        }
    }

    /// The character after the next, or NUL where the text has none.
    fn peek_next(&self) -> (out: char)
        requires
            self.wf(),
        ensures
            out == if self.current + 1 >= self.source@.len() {
                '\0'
            } else {
                self.source@[self.current + 1]
            },
    {
        if self.current + 1 >= self.source.len() {
            return '\0';
        }
        return self.source[self.current + 1];
    }

    /// Scans a string literal whose opening quote has been consumed.
    fn handle_string(&mut self)
        requires
            old(self).wf(),
            old(self).start + 1 == old(self).current,
            old(self).source@[old(self).start as int] == '"',
            old(self).line <= old(self).start + 1,
        ensures
            final(self).wf(),
            final(self).source@ == old(self).source@,
            final(self).current == string_literal(
                old(self).source@,
                old(self).start as int,
                old(self).line,
            ).end,
            final(self).line == string_literal(
                old(self).source@,
                old(self).start as int,
                old(self).line,
            ).line,
            final(self).found() == old(self).found() + items(
                string_literal(old(self).source@, old(self).start as int, old(self).line).token,
            ),
            final(self).failed() == old(self).failed() + items(
                string_literal(old(self).source@, old(self).start as int, old(self).line).error,
            ),
    {
        let ghost src = self.source@;
        let ghost before_tokens = self.found();
        let ghost before_errors = self.failed();
        let ghost close = run_end(src, self.start + 1, Run::Quoted);
        let error_line = self.line;
        proof {
            lemma_run_end(src, self.start + 1, Run::Quoted);
            lemma_newlines_bound(src, self.start + 1, close);
        }
        while self.peek() != '"' && !self.is_at_end()
            invariant
                self.wf(),
                self.source@ == src,
                self.found() == old(self).found(),
                self.failed() == old(self).failed(),
                self.start == old(self).start,
                self.start < self.current <= close <= src.len(),
                close == run_end(src, self.current as int, Run::Quoted),
                self.line == error_line + newlines(src, self.start + 1, self.current as int),
                error_line <= self.start + 1,
            decreases src.len() - self.current,
        {
            proof {
                lemma_newlines_bound(src, self.start + 1, self.current as int);
                lemma_run_end(src, self.current + 1, Run::Quoted);
            }
            if self.peek() == '\n' {
                self.line += 1;
            }
            self.advance();
        }
        let end = self.current;
        if self.is_at_end() {
            self.errors.push(SyntaxError::UnterminatedString(UnterminatedString::new(error_line)));
            assert(self.failed() =~= before_errors + seq![
                SyntaxErrorView::UnterminatedString { line: error_line },
            ]);
        } else {
            assert(self.failed() =~= before_errors + Seq::<SyntaxErrorView>::empty());
        }
        self.advance();
        let literal_value = slice_of(&self.source, self.start + 1, end);
        self.add_literal(TokenType::String, Literal::String(literal_value));
    }

    /// Scans a keyword or an identifier whose first letter has been consumed.
    fn identifier(&mut self)
        requires
            old(self).wf(),
            old(self).start + 1 == old(self).current,
        ensures
            final(self).wf(),
            final(self).source@ == old(self).source@,
            final(self).line == old(self).line,
            final(self).failed() == old(self).failed(),
            final(self).current == word(
                old(self).source@,
                old(self).start as int,
                old(self).line,
            ).end,
            final(self).found() == old(self).found() + items(
                word(old(self).source@, old(self).start as int, old(self).line).token,
            ),
    {
        let ghost src = self.source@;
        proof {
            lemma_run_end(src, self.start + 1, Run::Word);
        }
        while !self.is_at_end() && alphanumeric(self.peek())
            invariant
                self.wf(),
                self.source@ == src,
                self.found() == old(self).found(),
                self.failed() == old(self).failed(),
                self.line == old(self).line,
                self.start == old(self).start,
                self.start < self.current <= src.len(),
                run_end(src, self.start + 1, Run::Word) == run_end(
                    src,
                    self.current as int,
                    Run::Word,
                ),
            decreases src.len() - self.current,
        {
            self.advance();
        }
        let source_text = slice_of(&self.source, self.start, self.current);
        let token_type = match self.reserved_keywords.get(source_text.as_str()) {
            Some(token_type) => *token_type,
            None => TokenType::Identifier,
        };
        self.add_token(token_type);
    }

    /// Scans a numeric literal whose first digit has been consumed.
    fn handle_number(&mut self)
        requires
            old(self).wf(),
            old(self).start + 1 == old(self).current,
            is_digit(old(self).source@[old(self).start as int]),
        ensures
            final(self).wf(),
            final(self).source@ == old(self).source@,
            final(self).line == old(self).line,
            final(self).failed() == old(self).failed(),
            final(self).current == number_literal(
                old(self).source@,
                old(self).start as int,
                old(self).line,
            ).end,
            final(self).found() == old(self).found() + items(
                number_literal(old(self).source@, old(self).start as int, old(self).line).token,
            ),
    {
        let ghost src = self.source@;
        // consume before decimal point
        while digit(self.peek())
            invariant
                self.wf(),
                self.source@ == src,
                self.found() == old(self).found(),
                self.failed() == old(self).failed(),
                self.line == old(self).line,
                self.start == old(self).start,
                self.start < self.current <= src.len(),
                forall|i: int| self.start <= i < self.current ==> is_digit(#[trigger] src[i]),
                run_end(src, self.start + 1, Run::Digits) == run_end(
                    src,
                    self.current as int,
                    Run::Digits,
                ),
            decreases src.len() - self.current,
        {
            self.advance();
        }
        let ghost whole = self.current;
        if self.peek() == '.' && digit(self.peek_next()) {
            // consume the decimal point
            self.advance();
            // consume after decimal point
            while digit(self.peek())
                invariant
                    self.wf(),
                    self.source@ == src,
                    self.found() == old(self).found(),
                    self.failed() == old(self).failed(),
                    self.line == old(self).line,
                    self.start == old(self).start,
                    whole < self.current <= src.len(),
                    forall|i: int| whole < i < self.current ==> is_digit(#[trigger] src[i]),
                    run_end(src, whole + 1, Run::Digits) == run_end(
                        src,
                        self.current as int,
                        Run::Digits,
                    ),
                decreases src.len() - self.current,
            {
                self.advance();
            }
        }
        let text = slice_of(&self.source, self.start, self.current);
        proof {
            let lexeme = src.subrange(self.start as int, self.current as int);
            assert(numeral_with_whole(lexeme, whole - self.start)) by {
                assert forall|i: int| 0 <= i < whole - self.start implies is_digit(
                    #[trigger] lexeme[i],
                ) by {
                    assert(lexeme[i] == src[self.start + i]);
                }
                if whole - self.start < lexeme.len() {
                    assert forall|i: int| whole - self.start < i < lexeme.len() implies is_digit(
                        #[trigger] lexeme[i],
                    ) by {
                        assert(lexeme[i] == src[self.start + i]);
                    }
                }
            }
        }
        self.add_literal(TokenType::Number, Literal::Number(Numeral::from_text(text)));
    }
}

} // verus!
