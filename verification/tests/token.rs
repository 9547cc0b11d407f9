use loxrs::token::{clone_literal, keyword_kind, LiteralValue, Token, TokenType};

#[test]
fn token_display_format() {
    let test_cases = vec![
        ((TokenType::Dot, "."), "Dot ."),
        ((TokenType::Plus, "+"), "Plus +"),
        ((TokenType::Minus, "-"), "Minus -"),
        ((TokenType::Star, "*"), "Star *"),
        ((TokenType::Slash, "/"), "Slash /"),
        ((TokenType::Equal, "="), "Equal ="),
    ];
    for (actual, expected) in test_cases {
        assert_eq!(
            Token {
                token_type: actual.0,
                literal: Some(LiteralValue::Text(actual.1.to_string())),
                line: 1
            }
            .to_string(),
            expected.to_string()
        );
    }
}

#[test]
fn token_without_literal_displays_none() {
    let token = Token { token_type: TokenType::Eof, literal: None, line: 3 };
    assert_eq!(token.to_string(), "Eof None");
}

#[test]
fn token_displays_numbers_and_booleans() {
    let number = Token {
        token_type: TokenType::Number,
        literal: Some(LiteralValue::Number("1.50".to_string())),
        line: 1,
    };
    assert_eq!(number.to_string(), "Number 1.50");
    let yes = Token { token_type: TokenType::True, literal: Some(LiteralValue::Bool(true)), line: 1 };
    assert_eq!(yes.to_string(), "True true");
    let no = Token { token_type: TokenType::False, literal: Some(LiteralValue::Bool(false)), line: 1 };
    assert_eq!(no.to_string(), "False false");
}

#[test]
fn literal_displays_its_text() {
    assert_eq!(LiteralValue::Text("lox".to_string()).to_string(), "lox");
    assert_eq!(LiteralValue::Number("12.5".to_string()).to_string(), "12.5");
    assert_eq!(LiteralValue::Bool(true).to_string(), "true");
    assert_eq!(LiteralValue::Bool(false).to_string(), "false");
}

#[test]
fn kind_names_are_the_variant_names() {
    let kinds = [
        TokenType::LeftParen,
        TokenType::RightParen,
        TokenType::LeftBrace,
        TokenType::RightBrace,
        TokenType::LeftBracket,
        TokenType::RightBracket,
        TokenType::Comma,
        TokenType::Dot,
        TokenType::SemiColon,
        TokenType::Colon,
        TokenType::Plus,
        TokenType::PlusEqual,
        TokenType::Minus,
        TokenType::MinusEqual,
        TokenType::Equal,
        TokenType::EqualEqual,
        TokenType::Star,
        TokenType::StarEqual,
        TokenType::Slash,
        TokenType::SlashEqual,
        TokenType::Bang,
        TokenType::BangEqual,
        TokenType::Less,
        TokenType::LessEqual,
        TokenType::Greater,
        TokenType::GreaterEqual,
        TokenType::Identifier,
        TokenType::String,
        TokenType::Number,
        TokenType::And,
        TokenType::Class,
        TokenType::Else,
        TokenType::False,
        TokenType::Fun,
        TokenType::For,
        TokenType::If,
        TokenType::Nil,
        TokenType::Or,
        TokenType::Print,
        TokenType::Return,
        TokenType::Super,
        TokenType::This,
        TokenType::True,
        TokenType::Var,
        TokenType::While,
        TokenType::Eof,
    ];
    for kind in kinds {
        assert_eq!(kind.name(), format!("{:?}", kind));
    }
}

#[test]
fn keyword_table_holds_the_reserved_words_only() {
    assert_eq!(keyword_kind("and"), Some(TokenType::And));
    assert_eq!(keyword_kind("while"), Some(TokenType::While));
    assert_eq!(keyword_kind("nil"), Some(TokenType::Nil));
    assert_eq!(keyword_kind("And"), None);
    assert_eq!(keyword_kind("an"), None);
    assert_eq!(keyword_kind("andy"), None);
    assert_eq!(keyword_kind(""), None);
    assert_eq!(keyword_kind("eof"), None);
}

#[test]
fn clones_are_equal() {
    let token = Token {
        token_type: TokenType::String,
        literal: Some(LiteralValue::Text("lox".to_string())),
        line: 9,
    };
    assert_eq!(token.clone(), token);
    assert_eq!(clone_literal(&token.literal), token.literal);
    assert_eq!(clone_literal(&None), None);
    assert_eq!(LiteralValue::Bool(true).clone(), LiteralValue::Bool(true));
    assert_eq!(
        LiteralValue::Number("1".to_string()).clone(),
        LiteralValue::Number("1".to_string())
    );
}
