use loxrs::error::{InvalidCharacterError, LexError, ParseError};
use loxrs::lexer::scan;
use loxrs::parser::parse;
use loxrs::token::{Token, TokenType};

#[test]
fn invalid_character_message() {
    let e = InvalidCharacterError { invalid_char: '@', column: 4, line: 1 };
    assert_eq!(e.to_string(), "invalid character detected: @ at line 1, column 4");
    assert_eq!(
        LexError::InvalidCharacter(e).to_string(),
        "invalid character detected: @ at line 1, column 4"
    );
    assert_eq!(
        scan("1\n2\n3\n4\n5\n6\n7\n8\n9\n10 + 11 $").unwrap_err().to_string(),
        "invalid character detected: $ at line 10, column 26"
    );
}

#[test]
fn unterminated_string_message() {
    assert_eq!(
        LexError::UnterminatedString { line: 12 }.to_string(),
        "unterminated string starting at line 12"
    );
    assert_eq!(
        scan("\n\"abc").unwrap_err().to_string(),
        "unterminated string starting at line 2"
    );
}

#[test]
fn malformed_number_message() {
    assert_eq!(
        LexError::MalformedNumber { text: "1.2.3".to_string(), line: 7 }.to_string(),
        "malformed number 1.2.3 at line 7"
    );
}

#[test]
fn unexpected_token_message() {
    assert_eq!(
        parse(scan("\n;").unwrap()).unwrap_err().to_string(),
        "unexpected token SemiColon at line 2, expected one of: Number, String, True, False, Nil, LeftParen"
    );
    let e = ParseError::UnexpectedToken {
        found: Token { token_type: TokenType::Plus, literal: None, line: 5 },
        expected_kinds: vec![TokenType::Eof],
        line: 5,
    };
    assert_eq!(e.to_string(), "unexpected token Plus at line 5, expected one of: Eof");
    let e = ParseError::UnexpectedToken {
        found: Token { token_type: TokenType::Plus, literal: None, line: 5 },
        expected_kinds: vec![],
        line: 5,
    };
    assert_eq!(e.to_string(), "unexpected token Plus at line 5, expected one of: ");
}

#[test]
fn unclosed_grouping_message() {
    assert_eq!(
        parse(scan("(1 + 2").unwrap()).unwrap_err().to_string(),
        "unclosed grouping starting at line 1"
    );
}

#[test]
fn unexpected_end_message() {
    assert_eq!(parse(scan("1 +").unwrap()).unwrap_err().to_string(), "unexpected end of input");
}

#[test]
fn nesting_too_deep_message() {
    assert_eq!(
        ParseError::NestingTooDeep { line: 40 }.to_string(),
        "expression nested too deep at line 40"
    );
}
