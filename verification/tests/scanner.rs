use loxrs::error::{InvalidCharacterError, LexError};
use loxrs::lexer::scan;
use loxrs::scanner::Scanner;
use loxrs::token::{LiteralValue, Token, TokenType};

fn scan_by_index(source: &str) -> Result<Vec<Token>, LexError> {
    let mut scanner = Scanner::new(source);
    match scanner.scan_tokens() {
        Ok(tokens) => Ok(tokens.to_vec()),
        Err(e) => Err(e),
    }
}

#[test]
fn new_scanner_instance() {
    let source = "var lang = \"lox\";";
    let scanner = Scanner::new(source);
    assert_eq!(scanner.line, 1);
    assert_eq!(scanner.current, 0);
    assert_eq!(scanner.start, 0);
    assert!(scanner.tokens.is_empty());
}

#[test]
fn scanner_scans_a_declaration() {
    let mut scanner = Scanner::new("var lang = \"lox\";");
    let expected = vec![
        Token {
            token_type: TokenType::Var,
            literal: Some(LiteralValue::Text("var".to_string())),
            line: 1,
        },
        Token {
            token_type: TokenType::Identifier,
            literal: Some(LiteralValue::Text("lang".to_string())),
            line: 1,
        },
        Token { token_type: TokenType::Equal, literal: None, line: 1 },
        Token {
            token_type: TokenType::String,
            literal: Some(LiteralValue::Text("lox".to_string())),
            line: 1,
        },
        Token { token_type: TokenType::SemiColon, literal: None, line: 1 },
        Token { token_type: TokenType::Eof, literal: None, line: 1 },
    ];
    assert_eq!(scanner.scan_tokens().unwrap(), expected.as_slice());
    assert_eq!(scanner.tokens, expected);
    assert_eq!(scanner.current, 17);
}

#[test]
fn scanner_reports_an_invalid_character() {
    assert_eq!(
        scan_by_index("1 + @"),
        Err(LexError::InvalidCharacter(InvalidCharacterError {
            invalid_char: '@',
            column: 4,
            line: 1,
        }))
    );
}

#[test]
fn scanner_reports_an_unterminated_string() {
    assert_eq!(scan_by_index("1\n\"a\nb"), Err(LexError::UnterminatedString { line: 2 }));
}

#[test]
fn scanner_restores_its_tokens_on_error() {
    let mut scanner = Scanner::new("1 2 @");
    assert!(scanner.scan_tokens().is_err());
    assert!(scanner.tokens.is_empty());
}

#[test]
fn scanner_and_lexer_agree() {
    let sources = [
        "",
        "1+2",
        "\"lox\"",
        "// comment\n1",
        "!=",
        "!",
        "1 + @",
        "(1 + 2) * 3",
        "var x = 1.5; print x >= 2 / 3;",
        "1.5.25 1. .5 007",
        "\"a\nb\" c\n// d\n/ e /= f",
        "\"open",
        "if (a != b) { return nil; } else { this.x = super.y; }",
        "/x= <==> é",
        "\"é\" é",
        "a_1 _b2 while whiles for fo fun",
        " \t\r\n",
    ];
    for source in sources {
        assert_eq!(scan_by_index(source), scan(source), "source: {:?}", source);
    }
}
