use loxrs::error::{InvalidCharacterError, LexError};
use loxrs::lexer::{scan, Lexer};
use loxrs::token::{LiteralValue, Token, TokenType};

fn plain(token_type: TokenType, line: usize) -> Token {
    Token { token_type, literal: None, line }
}

fn number(text: &str, line: usize) -> Token {
    Token {
        token_type: TokenType::Number,
        literal: Some(LiteralValue::Number(text.to_string())),
        line,
    }
}

fn word(token_type: TokenType, text: &str, line: usize) -> Token {
    Token { token_type, literal: Some(LiteralValue::Text(text.to_string())), line }
}

fn string(text: &str, line: usize) -> Token {
    word(TokenType::String, text, line)
}

fn kinds(source: &str) -> Vec<TokenType> {
    scan(source).unwrap().iter().map(|t| t.token_type).collect()
}

#[test]
fn new_lexer_instance() {
    let source = "var lang = \"lox\";";
    let lexer = Lexer::new(source);
    assert_eq!(lexer.line, 1);
    assert_eq!(lexer.current, 0);
    assert_eq!(lexer.start, 0);
    assert!(lexer.tokens.is_empty());
}

#[test]
fn lexer_scans_a_declaration() {
    let mut lexer = Lexer::new("var lang = \"lox\";");
    let expected = vec![
        word(TokenType::Var, "var", 1),
        word(TokenType::Identifier, "lang", 1),
        plain(TokenType::Equal, 1),
        string("lox", 1),
        plain(TokenType::SemiColon, 1),
        plain(TokenType::Eof, 1),
    ];
    assert_eq!(lexer.scan_tokens().unwrap(), expected.as_slice());
    assert_eq!(lexer.tokens, expected);
    assert_eq!(lexer.current, 17);
    assert_eq!(lexer.line, 1);
}

#[test]
fn lexer_keeps_earlier_tokens_and_restores_them_on_error() {
    let mut lexer = Lexer::new("1 @");
    lexer.tokens.push(plain(TokenType::Comma, 7));
    assert!(lexer.scan_tokens().is_err());
    assert_eq!(lexer.tokens, vec![plain(TokenType::Comma, 7)]);

    let mut lexer = Lexer::new("1");
    lexer.tokens.push(plain(TokenType::Comma, 7));
    assert_eq!(
        lexer.scan_tokens().unwrap(),
        vec![plain(TokenType::Comma, 7), number("1", 1), plain(TokenType::Eof, 1)].as_slice()
    );
}

#[test]
fn empty_source_is_only_the_end_marker() {
    assert_eq!(scan(""), Ok(vec![plain(TokenType::Eof, 1)]));
}

#[test]
fn single_punctuation_yields_one_token_and_the_end_marker() {
    let cases = [
        ("(", TokenType::LeftParen),
        (")", TokenType::RightParen),
        ("{", TokenType::LeftBrace),
        ("}", TokenType::RightBrace),
        (",", TokenType::Comma),
        (".", TokenType::Dot),
        (";", TokenType::SemiColon),
    ];
    for (source, kind) in cases {
        assert_eq!(scan(source), Ok(vec![plain(kind, 1), plain(TokenType::Eof, 1)]));
    }
}

#[test]
fn single_operator_yields_the_bare_kind() {
    let cases = [
        ("*", TokenType::Star),
        ("+", TokenType::Plus),
        ("!", TokenType::Bang),
        ("=", TokenType::Equal),
        ("-", TokenType::Minus),
        ("<", TokenType::Less),
        (">", TokenType::Greater),
        ("/", TokenType::Slash),
    ];
    for (source, kind) in cases {
        assert_eq!(scan(source), Ok(vec![plain(kind, 1), plain(TokenType::Eof, 1)]));
    }
}

#[test]
fn operator_followed_by_equal_is_one_token() {
    let cases = [
        ("*=", TokenType::StarEqual),
        ("+=", TokenType::PlusEqual),
        ("!=", TokenType::BangEqual),
        ("==", TokenType::EqualEqual),
        ("-=", TokenType::MinusEqual),
        ("<=", TokenType::LessEqual),
        (">=", TokenType::GreaterEqual),
        ("/=", TokenType::SlashEqual),
    ];
    for (source, kind) in cases {
        assert_eq!(scan(source), Ok(vec![plain(kind, 1), plain(TokenType::Eof, 1)]));
    }
}

#[test]
fn bang_equal_is_not_bang_then_equal() {
    assert_eq!(
        scan("!="),
        Ok(vec![plain(TokenType::BangEqual, 1), plain(TokenType::Eof, 1)])
    );
    assert_eq!(scan("!"), Ok(vec![plain(TokenType::Bang, 1), plain(TokenType::Eof, 1)]));
    assert_eq!(
        kinds("! ="),
        vec![TokenType::Bang, TokenType::Equal, TokenType::Eof]
    );
    assert_eq!(
        kinds("==="),
        vec![TokenType::EqualEqual, TokenType::Equal, TokenType::Eof]
    );
}

#[test]
fn lookahead_reaches_one_character_only() {
    assert_eq!(
        scan("/x="),
        Ok(vec![
            plain(TokenType::Slash, 1),
            word(TokenType::Identifier, "x", 1),
            plain(TokenType::Equal, 1),
            plain(TokenType::Eof, 1),
        ])
    );
    assert_eq!(
        kinds("+1="),
        vec![TokenType::Plus, TokenType::Number, TokenType::Equal, TokenType::Eof]
    );
}

#[test]
fn scans_a_sum() {
    assert_eq!(
        scan("1+2"),
        Ok(vec![
            number("1", 1),
            plain(TokenType::Plus, 1),
            number("2", 1),
            plain(TokenType::Eof, 1),
        ])
    );
}

#[test]
fn string_literal_excludes_its_quotes() {
    assert_eq!(scan("\"lox\""), Ok(vec![string("lox", 1), plain(TokenType::Eof, 1)]));
    assert_eq!(scan("\"\""), Ok(vec![string("", 1), plain(TokenType::Eof, 1)]));
}

#[test]
fn string_token_is_on_the_line_where_it_starts() {
    assert_eq!(
        scan("\"a\nb\"\n1"),
        Ok(vec![string("a\nb", 1), number("1", 3), plain(TokenType::Eof, 3)])
    );
}

#[test]
fn string_may_hold_any_character_but_a_quote() {
    assert_eq!(
        scan("\"// (1 + é) \\\" 2"),
        Ok(vec![string("// (1 + é) \\", 1), number("2", 1), plain(TokenType::Eof, 1)])
    );
}

#[test]
fn unterminated_string_reports_the_line_of_its_opening_quote() {
    assert_eq!(scan("\"lox"), Err(LexError::UnterminatedString { line: 1 }));
    assert_eq!(scan("1\n\n \"a\nb\nc"), Err(LexError::UnterminatedString { line: 3 }));
    assert_eq!(scan("\""), Err(LexError::UnterminatedString { line: 1 }));
}

#[test]
fn comment_yields_no_token_and_line_advances() {
    assert_eq!(
        scan("// comment\n1"),
        Ok(vec![number("1", 2), plain(TokenType::Eof, 2)])
    );
}

#[test]
fn comment_runs_to_the_end_of_its_line_only() {
    assert_eq!(
        scan("1 // two 2 \"\n3 // @"),
        Ok(vec![number("1", 1), number("3", 2), plain(TokenType::Eof, 2)])
    );
    assert_eq!(scan("//"), Ok(vec![plain(TokenType::Eof, 1)]));
    assert_eq!(scan("//\n"), Ok(vec![plain(TokenType::Eof, 2)]));
}

#[test]
fn blanks_separate_and_newlines_count() {
    assert_eq!(
        scan(" \t1\r\n\n  2 \n"),
        Ok(vec![number("1", 1), number("2", 3), plain(TokenType::Eof, 4)])
    );
}

#[test]
fn numbers_take_the_longest_numeral() {
    assert_eq!(scan("12345"), Ok(vec![number("12345", 1), plain(TokenType::Eof, 1)]));
    assert_eq!(scan("1.5"), Ok(vec![number("1.5", 1), plain(TokenType::Eof, 1)]));
    assert_eq!(scan("007.250"), Ok(vec![number("007.250", 1), plain(TokenType::Eof, 1)]));
    assert_eq!(
        scan("1.5.25"),
        Ok(vec![
            number("1.5", 1),
            plain(TokenType::Dot, 1),
            number("25", 1),
            plain(TokenType::Eof, 1),
        ])
    );
}

#[test]
fn trailing_point_is_not_part_of_a_number() {
    assert_eq!(
        scan("1."),
        Ok(vec![number("1", 1), plain(TokenType::Dot, 1), plain(TokenType::Eof, 1)])
    );
    assert_eq!(
        scan("1.x"),
        Ok(vec![
            number("1", 1),
            plain(TokenType::Dot, 1),
            word(TokenType::Identifier, "x", 1),
            plain(TokenType::Eof, 1),
        ])
    );
    assert_eq!(
        scan(".5"),
        Ok(vec![plain(TokenType::Dot, 1), number("5", 1), plain(TokenType::Eof, 1)])
    );
}

#[test]
fn numeral_reads_as_the_number_it_writes() {
    let tokens = scan("1 2.5 100.125").unwrap();
    let values: Vec<f64> = tokens
        .iter()
        .filter_map(|t| match &t.literal {
            Some(LiteralValue::Number(numeral)) => Some(numeral.parse::<f64>().unwrap()),
            _ => None,
        })
        .collect();
    assert_eq!(values, vec![1.0, 2.5, 100.125]);
}

#[test]
fn reserved_words_have_their_own_kinds() {
    let cases = [
        ("and", TokenType::And),
        ("class", TokenType::Class),
        ("else", TokenType::Else),
        ("false", TokenType::False),
        ("fun", TokenType::Fun),
        ("for", TokenType::For),
        ("if", TokenType::If),
        ("nil", TokenType::Nil),
        ("or", TokenType::Or),
        ("print", TokenType::Print),
        ("return", TokenType::Return),
        ("super", TokenType::Super),
        ("this", TokenType::This),
        ("true", TokenType::True),
        ("var", TokenType::Var),
        ("while", TokenType::While),
    ];
    for (source, kind) in cases {
        assert_eq!(scan(source), Ok(vec![word(kind, source, 1), plain(TokenType::Eof, 1)]));
    }
}

#[test]
fn identifiers_take_letters_digits_and_underscores() {
    for source in ["x", "_", "_1", "a1_b2", "andy", "And", "classes", "nil_", "i", "fo"] {
        assert_eq!(
            scan(source),
            Ok(vec![word(TokenType::Identifier, source, 1), plain(TokenType::Eof, 1)])
        );
    }
    assert_eq!(
        scan("1abc"),
        Ok(vec![number("1", 1), word(TokenType::Identifier, "abc", 1), plain(TokenType::Eof, 1)])
    );
    assert_eq!(
        scan("var1 var"),
        Ok(vec![
            word(TokenType::Identifier, "var1", 1),
            word(TokenType::Var, "var", 1),
            plain(TokenType::Eof, 1),
        ])
    );
}

#[test]
fn invalid_character_is_reported_with_its_position() {
    assert_eq!(
        scan("1 + @"),
        Err(LexError::InvalidCharacter(InvalidCharacterError {
            invalid_char: '@',
            column: 4,
            line: 1,
        }))
    );
}

#[test]
fn invalid_character_position_counts_characters_from_the_start() {
    assert_eq!(
        scan("\"é\"\n #"),
        Err(LexError::InvalidCharacter(InvalidCharacterError {
            invalid_char: '#',
            column: 5,
            line: 2,
        }))
    );
    assert_eq!(
        scan("é"),
        Err(LexError::InvalidCharacter(InvalidCharacterError {
            invalid_char: 'é',
            column: 0,
            line: 1,
        }))
    );
}

#[test]
fn brackets_and_colon_start_no_lexeme() {
    for (source, c) in [("[", '['), ("]", ']'), (":", ':'), ("'", '\''), ("\\", '\\')] {
        assert_eq!(
            scan(source),
            Err(LexError::InvalidCharacter(InvalidCharacterError {
                invalid_char: c,
                column: 0,
                line: 1,
            }))
        );
    }
}

#[test]
fn first_error_wins() {
    assert_eq!(
        scan("@ \"open"),
        Err(LexError::InvalidCharacter(InvalidCharacterError {
            invalid_char: '@',
            column: 0,
            line: 1,
        }))
    );
    assert_eq!(scan("\"open @"), Err(LexError::UnterminatedString { line: 1 }));
}

#[test]
fn end_marker_is_last_and_only_last() {
    for source in ["", "1", "a b c", "// c\n", "\"s\" + 1 ;", "\n\n\n"] {
        let tokens = scan(source).unwrap();
        let (last, before) = tokens.split_last().unwrap();
        assert_eq!(last.token_type, TokenType::Eof);
        assert_eq!(last.literal, None);
        assert!(before.iter().all(|t| t.token_type != TokenType::Eof));
    }
}

#[test]
fn token_lines_never_go_back() {
    let tokens = scan("1\n\n2 \"a\nb\" 3 // c\n4\n").unwrap();
    let lines: Vec<usize> = tokens.iter().map(|t| t.line).collect();
    assert_eq!(lines, vec![1, 3, 3, 4, 5, 6]);
    assert!(lines.windows(2).all(|w| w[0] <= w[1]));
}

#[test]
fn literals_have_the_shape_of_their_kind() {
    let tokens = scan("1 2.50 \"a b\" nil x_1 ( <= ) while").unwrap();
    for token in &tokens {
        match (&token.token_type, &token.literal) {
            (TokenType::Number, Some(LiteralValue::Number(numeral))) => {
                let mut parts = numeral.split('.');
                let whole = parts.next().unwrap();
                assert!(!whole.is_empty() && whole.chars().all(|c| c.is_ascii_digit()));
                if let Some(fraction) = parts.next() {
                    assert!(!fraction.is_empty() && fraction.chars().all(|c| c.is_ascii_digit()));
                }
                assert_eq!(parts.next(), None);
            }
            (TokenType::String, Some(LiteralValue::Text(text))) => assert!(!text.contains('"')),
            (
                TokenType::Nil | TokenType::While | TokenType::Identifier,
                Some(LiteralValue::Text(text)),
            ) => {
                assert!(text.chars().all(|c| c.is_ascii_alphanumeric() || c == '_'));
            }
            (
                TokenType::LeftParen | TokenType::LessEqual | TokenType::RightParen | TokenType::Eof,
                None,
            ) => {}
            other => panic!("unexpected token {:?}", other),
        }
    }
    assert_eq!(tokens.len(), 10);
}
