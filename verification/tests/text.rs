use goryl::errors::parse_error::ParseError;
use goryl::errors::syntax_error::{SyntaxError, UnexpectedToken, UnterminatedString};
use goryl::errors::Error;
use goryl::syntax::token::{Literal, Token, TokenType};
use goryl::text::{chars_of, decimal, digit, slice_of};

#[test]
fn decimal_writes_numbers_without_leading_zeros() {
    assert_eq!(decimal(0), "0");
    assert_eq!(decimal(7), "7");
    assert_eq!(decimal(10), "10");
    assert_eq!(decimal(109), "109");
    assert_eq!(decimal(9_876_543_210), "9876543210");
    assert_eq!(decimal(usize::MAX), usize::MAX.to_string());
}

#[test]
fn digit_is_one_of_the_ten_ascii_digits() {
    for c in '0'..='9' {
        assert!(digit(c));
    }
    for c in ['/', ':', 'a', ' ', '\0', '٣', '²'] {
        assert!(!digit(c), "{:?}", c);
    }
}

#[test]
fn chars_of_and_slice_of_go_by_characters() {
    let chars = chars_of("aé\n\"z");
    assert_eq!(chars, vec!['a', 'é', '\n', '"', 'z']);
    assert_eq!(slice_of(&chars, 0, 5), "aé\n\"z");
    assert_eq!(slice_of(&chars, 1, 2), "é");
    assert_eq!(slice_of(&chars, 3, 3), "");
    assert!(chars_of("").is_empty());
}

#[test]
fn unexpected_token_holds_what_it_was_made_of() {
    let error = UnexpectedToken::new('%', 12);
    assert_eq!(error.token(), '%');
    assert_eq!(error.line(), 12);
    assert_eq!(error.message(), "Unexpected token % on line 12");
    assert_eq!(error.report(), "Syntax Error: Unexpected token % on line 12");
    let copy = error.clone();
    assert_eq!(copy.message(), error.message());
    let wrapped = SyntaxError::UnexpectedToken(error);
    assert_eq!(
        wrapped.clone().report(),
        "Syntax Error: Unexpected token % on line 12"
    );
}

#[test]
fn unexpected_token_may_be_any_character() {
    assert_eq!(
        UnexpectedToken::new('é', 0).message(),
        "Unexpected token é on line 0"
    );
    assert_eq!(
        UnexpectedToken::new('\n', 1).message(),
        "Unexpected token \n on line 1"
    );
}

#[test]
fn unterminated_string_holds_its_line() {
    let error = UnterminatedString::new(300);
    assert_eq!(error.line(), 300);
    assert_eq!(error.message(), "Unterminated string on line 300");
    assert_eq!(error.report(), "Syntax Error: Unterminated string on line 300");
    assert_eq!(error.clone().line(), 300);
    let wrapped = SyntaxError::UnterminatedString(error);
    assert_eq!(
        wrapped.report(),
        "Syntax Error: Unterminated string on line 300"
    );
}

#[test]
fn parse_error_reports_the_line_of_its_token() {
    let error = ParseError {
        token: Token::new(TokenType::Plus, "+".to_string(), Literal::Null, 42),
        msg: "Unexpected token".to_string(),
    };
    assert_eq!(error.report(), "Parse Error on line 42: Unexpected token");
}
