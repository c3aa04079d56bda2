use goryl::errors::syntax_error::SyntaxError;
use goryl::errors::Error;
use goryl::syntax::scanner::Scanner;
use goryl::syntax::token::{Literal, Token, TokenType};

fn scan(source: &str) -> Scanner {
    let mut scanner = Scanner::new(source.to_string());
    scanner.scan_tokens();
    scanner
}

fn kinds(scanner: &Scanner) -> Vec<TokenType> {
    scanner.tokens.iter().map(|t| t.token_type).collect()
}

fn lexemes(scanner: &Scanner) -> Vec<String> {
    scanner.tokens.iter().map(|t| t.lexeme.clone()).collect()
}

#[test]
fn test_is_at_end() {
    let scanner = Scanner::new("let igor = true".to_string());
    assert_eq!(false, scanner.is_at_end())
}

#[test]
fn scanner_test() {
    let source_code = String::from(
        r#"
            let lemin = \"LEMON\";\nprint lemin;\n
                          "#,
    );
    let mut scanner = Scanner::new(source_code);
    scanner.scan_tokens();
    println!("{:#?}", scanner.tokens);
    assert_eq!(
        kinds(&scanner),
        vec![
            TokenType::Let,
            TokenType::Identifier,
            TokenType::Equal,
            TokenType::String,
            TokenType::Semicolon,
            TokenType::Identifier,
            TokenType::Identifier,
            TokenType::Semicolon,
            TokenType::Identifier,
            TokenType::Eof,
        ]
    );
    assert_eq!(
        lexemes(&scanner),
        vec!["let", "lemin", "=", "\"LEMON\\\"", ";", "nprint", "lemin", ";", "n", ""]
    );
    // the three backslashes outside the string begin no token
    assert_eq!(scanner.errors.len(), 3);
    for (error, line) in scanner.errors.iter().zip([2, 2, 2]) {
        match error {
            SyntaxError::UnexpectedToken(e) => {
                assert_eq!(e.token(), '\\');
                assert_eq!(e.line(), line);
            }
            other => panic!("not an unexpected token: {:?}", other),
        }
    }
    // the scan starts on line 1 and crosses two line breaks
    assert_eq!(scanner.tokens[0].line, 2);
    assert_eq!(scanner.tokens[9].line, 3);
}

#[test]
fn empty_source_is_one_eof_on_line_one() {
    let scanner = scan("");
    assert_eq!(kinds(&scanner), vec![TokenType::Eof]);
    assert_eq!(scanner.tokens[0].lexeme, "");
    assert_eq!(scanner.tokens[0].line, 1);
    assert!(matches!(scanner.tokens[0].literal, Literal::Null));
    assert!(scanner.errors.is_empty());
    assert!(scanner.is_at_end());
}

#[test]
fn single_character_tokens() {
    let scanner = scan("(){},.-+;*/");
    assert_eq!(
        kinds(&scanner),
        vec![
            TokenType::LeftParen,
            TokenType::RightParen,
            TokenType::LeftBrace,
            TokenType::RightBrace,
            TokenType::Comma,
            TokenType::Dot,
            TokenType::Minus,
            TokenType::Plus,
            TokenType::Semicolon,
            TokenType::Star,
            TokenType::Slash,
            TokenType::Eof,
        ]
    );
    assert_eq!(
        lexemes(&scanner),
        vec!["(", ")", "{", "}", ",", ".", "-", "+", ";", "*", "/", ""]
    );
}

#[test]
fn compound_operators_take_one_character_of_lookahead() {
    let scanner = scan("! != = == < <= > >= =!");
    assert_eq!(
        kinds(&scanner),
        vec![
            TokenType::Bang,
            TokenType::BangEqual,
            TokenType::Equal,
            TokenType::EqualEqual,
            TokenType::Less,
            TokenType::LessEqual,
            TokenType::Greater,
            TokenType::GreaterEqual,
            TokenType::Equal,
            TokenType::Bang,
            TokenType::Eof,
        ]
    );
    assert_eq!(
        lexemes(&scanner),
        vec!["!", "!=", "=", "==", "<", "<=", ">", ">=", "=", "!", ""]
    );
}

#[test]
fn three_equal_signs_are_a_pair_and_one() {
    let scanner = scan("===");
    assert_eq!(
        kinds(&scanner),
        vec![TokenType::EqualEqual, TokenType::Equal, TokenType::Eof]
    );
}

#[test]
fn comments_run_to_the_end_of_the_line() {
    let scanner = scan("1 // two three\n4 // five");
    assert_eq!(
        kinds(&scanner),
        vec![TokenType::Number, TokenType::Number, TokenType::Eof]
    );
    assert_eq!(lexemes(&scanner), vec!["1", "4", ""]);
    assert_eq!(scanner.tokens[0].line, 1);
    assert_eq!(scanner.tokens[1].line, 2);
    assert_eq!(scanner.tokens[2].line, 2);
}

#[test]
fn blanks_are_skipped() {
    let scanner = scan(" \t\r a \r\t ");
    assert_eq!(kinds(&scanner), vec![TokenType::Identifier, TokenType::Eof]);
    assert!(scanner.errors.is_empty());
}

#[test]
fn backslash_begins_no_token() {
    let scanner = scan("\\");
    assert_eq!(kinds(&scanner), vec![TokenType::Eof]);
    assert_eq!(scanner.errors.len(), 1);
    match &scanner.errors[0] {
        SyntaxError::UnexpectedToken(e) => {
            assert_eq!(e.token(), '\\');
            assert_eq!(e.line(), 1);
            assert_eq!(e.message(), "Unexpected token \\ on line 1");
        }
        other => panic!("not an unexpected token: {:?}", other),
    }
    // the scan goes on behind it
    let scanner = scan("a \\\n\\ b");
    assert_eq!(lexemes(&scanner), vec!["a", "b", ""]);
    assert_eq!(scanner.errors.len(), 2);
}

#[test]
fn nul_character_begins_no_token() {
    let scanner = scan("a\0b");
    assert_eq!(
        kinds(&scanner),
        vec![TokenType::Identifier, TokenType::Identifier, TokenType::Eof]
    );
    assert_eq!(lexemes(&scanner), vec!["a", "b", ""]);
    assert_eq!(scanner.errors.len(), 1);
    match &scanner.errors[0] {
        SyntaxError::UnexpectedToken(e) => {
            assert_eq!(e.token(), '\0');
            assert_eq!(e.line(), 1);
        }
        other => panic!("not an unexpected token: {:?}", other),
    }
    let scanner = scan("\0");
    assert_eq!(kinds(&scanner), vec![TokenType::Eof]);
    assert_eq!(scanner.errors.len(), 1);
}

#[test]
fn string_literal_holds_the_text_between_the_quotes() {
    let scanner = scan("\"hello world\"");
    assert_eq!(kinds(&scanner), vec![TokenType::String, TokenType::Eof]);
    assert_eq!(scanner.tokens[0].lexeme, "\"hello world\"");
    match &scanner.tokens[0].literal {
        Literal::String(s) => assert_eq!(s, "hello world"),
        other => panic!("not a string: {:?}", other),
    }
}

#[test]
fn string_literal_has_no_escapes() {
    let scanner = scan("\"a\\n\"");
    match &scanner.tokens[0].literal {
        Literal::String(s) => assert_eq!(s, "a\\n"),
        other => panic!("not a string: {:?}", other),
    }
}

#[test]
fn empty_string_literal() {
    let scanner = scan("\"\"");
    assert_eq!(scanner.tokens[0].lexeme, "\"\"");
    match &scanner.tokens[0].literal {
        Literal::String(s) => assert_eq!(s, ""),
        other => panic!("not a string: {:?}", other),
    }
}

#[test]
fn string_over_two_lines_is_on_its_last_line() {
    let scanner = scan("\"a\nb\" c");
    assert_eq!(
        kinds(&scanner),
        vec![TokenType::String, TokenType::Identifier, TokenType::Eof]
    );
    assert_eq!(scanner.tokens[0].line, 2);
    assert_eq!(scanner.tokens[1].line, 2);
    match &scanner.tokens[0].literal {
        Literal::String(s) => assert_eq!(s, "a\nb"),
        other => panic!("not a string: {:?}", other),
    }
}

#[test]
fn unterminated_string_is_an_error_and_a_token() {
    let scanner = scan("print \"abc;");
    assert_eq!(
        kinds(&scanner),
        vec![TokenType::Print, TokenType::String, TokenType::Eof]
    );
    assert_eq!(scanner.tokens[1].lexeme, "\"abc;");
    match &scanner.tokens[1].literal {
        Literal::String(s) => assert_eq!(s, "abc;"),
        other => panic!("not a string: {:?}", other),
    }
    assert_eq!(scanner.errors.len(), 1);
    match &scanner.errors[0] {
        SyntaxError::UnterminatedString(e) => {
            assert_eq!(e.line(), 1);
            assert_eq!(e.message(), "Unterminated string on line 1");
        }
        other => panic!("not an unterminated string: {:?}", other),
    }
    assert_eq!(
        scanner.errors[0].report(),
        "Syntax Error: Unterminated string on line 1"
    );
}

#[test]
fn unterminated_string_names_the_line_where_it_opens() {
    let scanner = scan("\n\n\"a\nb\nc");
    assert_eq!(scanner.errors.len(), 1);
    match &scanner.errors[0] {
        SyntaxError::UnterminatedString(e) => assert_eq!(e.line(), 3),
        other => panic!("not an unterminated string: {:?}", other),
    }
    // the token is on the line where the input ends, and so is the end of input
    assert_eq!(scanner.tokens[0].line, 5);
    assert_eq!(scanner.tokens[1].line, 5);
}

#[test]
fn lone_quote_at_the_end_is_an_empty_unterminated_string() {
    let scanner = scan("\"");
    assert_eq!(kinds(&scanner), vec![TokenType::String, TokenType::Eof]);
    assert_eq!(scanner.tokens[0].lexeme, "\"");
    match &scanner.tokens[0].literal {
        Literal::String(s) => assert_eq!(s, ""),
        other => panic!("not a string: {:?}", other),
    }
    assert_eq!(scanner.errors.len(), 1);
}

#[test]
fn numbers_with_and_without_fraction() {
    let scanner = scan("12 3.25 007");
    assert_eq!(
        kinds(&scanner),
        vec![
            TokenType::Number,
            TokenType::Number,
            TokenType::Number,
            TokenType::Eof
        ]
    );
    assert_eq!(lexemes(&scanner), vec!["12", "3.25", "007", ""]);
    match &scanner.tokens[1].literal {
        Literal::Number(n) => {
            assert_eq!(n.text(), "3.25");
            assert_eq!(n.text().parse::<f64>().unwrap(), 3.25);
        }
        other => panic!("not a number: {:?}", other),
    }
}

#[test]
fn point_without_digit_behind_it_is_a_dot() {
    let scanner = scan("1. 2.x .5");
    assert_eq!(
        kinds(&scanner),
        vec![
            TokenType::Number,
            TokenType::Dot,
            TokenType::Number,
            TokenType::Dot,
            TokenType::Identifier,
            TokenType::Dot,
            TokenType::Number,
            TokenType::Eof,
        ]
    );
    assert_eq!(
        lexemes(&scanner),
        vec!["1", ".", "2", ".", "x", ".", "5", ""]
    );
}

#[test]
fn number_takes_one_point_only() {
    let scanner = scan("1.5.25");
    assert_eq!(
        kinds(&scanner),
        vec![
            TokenType::Number,
            TokenType::Dot,
            TokenType::Number,
            TokenType::Eof
        ]
    );
    assert_eq!(lexemes(&scanner), vec!["1.5", ".", "25", ""]);
}

#[test]
fn number_at_the_end_of_input_with_point() {
    let scanner = scan("7.");
    assert_eq!(
        kinds(&scanner),
        vec![TokenType::Number, TokenType::Dot, TokenType::Eof]
    );
}

#[test]
fn every_keyword_is_reserved() {
    let scanner = scan(
        "and Jungle else false for gorilla if null or print return super this true let while import",
    );
    assert_eq!(
        kinds(&scanner),
        vec![
            TokenType::And,
            TokenType::Jungle,
            TokenType::Else,
            TokenType::False,
            TokenType::For,
            TokenType::Gorilla,
            TokenType::If,
            TokenType::Null,
            TokenType::Or,
            TokenType::Print,
            TokenType::Return,
            TokenType::Super,
            TokenType::This,
            TokenType::True,
            TokenType::Let,
            TokenType::While,
            TokenType::Import,
            TokenType::Eof,
        ]
    );
    for token in scanner.tokens.iter() {
        assert!(matches!(token.literal, Literal::Null));
    }
}

#[test]
fn keywords_are_case_sensitive_and_whole_words() {
    let scanner = scan("Print jungle Gorilla lets printer");
    assert_eq!(
        kinds(&scanner),
        vec![
            TokenType::Identifier,
            TokenType::Identifier,
            TokenType::Identifier,
            TokenType::Identifier,
            TokenType::Identifier,
            TokenType::Eof,
        ]
    );
}

#[test]
fn identifier_is_a_letter_then_letters_and_digits() {
    let scanner = scan("a1b2 x_y 9z");
    // `_` begins no token; a digit begins a number
    assert_eq!(
        kinds(&scanner),
        vec![
            TokenType::Identifier,
            TokenType::Identifier,
            TokenType::Identifier,
            TokenType::Number,
            TokenType::Identifier,
            TokenType::Eof,
        ]
    );
    assert_eq!(lexemes(&scanner), vec!["a1b2", "x", "y", "9", "z", ""]);
    assert_eq!(scanner.errors.len(), 1);
    match &scanner.errors[0] {
        SyntaxError::UnexpectedToken(e) => {
            assert_eq!(e.token(), '_');
            assert_eq!(e.line(), 1);
        }
        other => panic!("not an unexpected token: {:?}", other),
    }
}

#[test]
fn letters_and_digits_beyond_ascii_belong_to_identifiers() {
    let scanner = scan("été ñ٣");
    assert_eq!(
        kinds(&scanner),
        vec![TokenType::Identifier, TokenType::Identifier, TokenType::Eof]
    );
    assert_eq!(lexemes(&scanner), vec!["été", "ñ٣", ""]);
    assert!(scanner.errors.is_empty());
}

#[test]
fn digit_beyond_ascii_begins_no_token() {
    let scanner = scan("٣");
    assert_eq!(kinds(&scanner), vec![TokenType::Eof]);
    assert_eq!(scanner.errors.len(), 1);
}

#[test]
fn unexpected_character_is_reported_and_the_scan_goes_on() {
    let scanner = scan("1 @ 2\n# 3");
    assert_eq!(
        kinds(&scanner),
        vec![
            TokenType::Number,
            TokenType::Number,
            TokenType::Number,
            TokenType::Eof
        ]
    );
    assert_eq!(scanner.errors.len(), 2);
    match &scanner.errors[0] {
        SyntaxError::UnexpectedToken(e) => {
            assert_eq!(e.token(), '@');
            assert_eq!(e.line(), 1);
            assert_eq!(e.message(), "Unexpected token @ on line 1");
        }
        other => panic!("not an unexpected token: {:?}", other),
    }
    match &scanner.errors[1] {
        SyntaxError::UnexpectedToken(e) => {
            assert_eq!(e.token(), '#');
            assert_eq!(e.line(), 2);
        }
        other => panic!("not an unexpected token: {:?}", other),
    }
    assert_eq!(
        scanner.errors[1].report(),
        "Syntax Error: Unexpected token # on line 2"
    );
}

#[test]
fn line_numbers_in_messages_are_written_in_decimal() {
    let mut source = String::new();
    for _ in 0..1203 {
        source.push('\n');
    }
    source.push('@');
    let scanner = scan(&source);
    match &scanner.errors[0] {
        SyntaxError::UnexpectedToken(e) => {
            assert_eq!(e.line(), 1204);
            assert_eq!(e.message(), "Unexpected token @ on line 1204");
        }
        other => panic!("not an unexpected token: {:?}", other),
    }
}

#[test]
fn lexemes_are_the_source_between_the_scanners_positions() {
    // every token but the last begins where the one before it ended, or
    // after skipped text, and holds exactly the text it was read from
    let source = "let total = (12.5+x1)  // sum\n print \"a b\";";
    let scanner = scan(source);
    let chars: Vec<char> = source.chars().collect();
    let mut at = 0;
    for token in scanner.tokens.iter() {
        let lexeme: Vec<char> = token.lexeme.chars().collect();
        let mut found = None;
        let mut start = at;
        while start + lexeme.len() <= chars.len() {
            if chars[start..start + lexeme.len()] == lexeme[..] {
                found = Some(start);
                break;
            }
            start += 1;
        }
        let start = found.expect("lexeme is not in the source");
        at = start + lexeme.len();
    }
    assert_eq!(
        lexemes(&scanner),
        vec!["let", "total", "=", "(", "12.5", "+", "x1", ")", "print", "\"a b\"", ";", ""]
    );
}

#[test]
fn advance_hands_out_the_characters_then_nul() {
    let mut scanner = Scanner::new("ab".to_string());
    assert_eq!(scanner.advance(), 'a');
    assert!(!scanner.is_at_end());
    assert_eq!(scanner.advance(), 'b');
    assert!(scanner.is_at_end());
    assert_eq!(scanner.advance(), '\0');
    assert_eq!(scanner.advance(), '\0');
}

#[test]
fn scan_tokens_goes_on_from_where_advance_stopped() {
    let mut scanner = Scanner::new("ab cd".to_string());
    scanner.advance();
    scanner.scan_tokens();
    assert_eq!(lexemes(&scanner), vec!["b", "cd", ""]);
}

#[test]
fn finish_hands_out_tokens_and_errors() {
    let scanner = scan("a $");
    let (tokens, errors) = scanner.finish();
    assert_eq!(tokens.len(), 2);
    assert_eq!(errors.len(), 1);
}

#[test]
fn tokens_are_equal_when_their_kinds_are() {
    let a = Token::new(TokenType::Identifier, "a".to_string(), Literal::Null, 1);
    let b = Token::new(TokenType::Identifier, "b".to_string(), Literal::Null, 7);
    let c = Token::new(TokenType::Number, "a".to_string(), Literal::Null, 1);
    assert!(a == b);
    assert!(a != c);
    let d = a.clone();
    assert_eq!(d.lexeme, "a");
    assert_eq!(d.line, 1);
    assert_eq!(d.token_type, TokenType::Identifier);
}
