use loxrs::error::ParseError;
use loxrs::lexer::scan;
use loxrs::parser::{parse, Parser};
use loxrs::repr::{BinaryExpr, Expr, GroupingExpr, LiteralExpr, UnaryExpr};
use loxrs::token::{LiteralValue, Token, TokenType};

fn num(text: &str) -> Expr {
    Expr::Literal(LiteralExpr::new(Some(LiteralValue::Number(text.to_string()))))
}

fn op(token_type: TokenType, line: usize) -> Token {
    Token { token_type, literal: None, line }
}

fn binary(left: Expr, token_type: TokenType, right: Expr) -> Expr {
    Expr::Binary(BinaryExpr::new(left, op(token_type, 1), right))
}

fn unary(token_type: TokenType, right: Expr) -> Expr {
    Expr::Unary(UnaryExpr::new(op(token_type, 1), right))
}

fn group(inner: Expr) -> Expr {
    Expr::Grouping(GroupingExpr::new(inner))
}

fn parse_source(source: &str) -> Result<Expr, ParseError> {
    parse(scan(source).unwrap())
}

#[test]
fn multiplication_binds_tighter_than_addition() {
    assert_eq!(
        parse_source("1 + 2 * 3"),
        Ok(binary(num("1"), TokenType::Plus, binary(num("2"), TokenType::Star, num("3"))))
    );
    assert_eq!(
        parse_source("1 * 2 + 3"),
        Ok(binary(binary(num("1"), TokenType::Star, num("2")), TokenType::Plus, num("3")))
    );
}

#[test]
fn grouping_overrides_precedence() {
    assert_eq!(
        parse_source("(1 + 2) * 3"),
        Ok(binary(
            group(binary(num("1"), TokenType::Plus, num("2"))),
            TokenType::Star,
            num("3")
        ))
    );
}

#[test]
fn infix_operators_associate_to_the_left() {
    assert_eq!(
        parse_source("1 - 2 - 3"),
        Ok(binary(binary(num("1"), TokenType::Minus, num("2")), TokenType::Minus, num("3")))
    );
    assert_eq!(
        parse_source("8 / 4 / 2 * 3"),
        Ok(binary(
            binary(binary(num("8"), TokenType::Slash, num("4")), TokenType::Slash, num("2")),
            TokenType::Star,
            num("3")
        ))
    );
    assert_eq!(
        parse_source("1 == 2 != 3"),
        Ok(binary(
            binary(num("1"), TokenType::EqualEqual, num("2")),
            TokenType::BangEqual,
            num("3")
        ))
    );
    assert_eq!(
        parse_source("1 < 2 <= 3 > 4 >= 5"),
        Ok(binary(
            binary(
                binary(binary(num("1"), TokenType::Less, num("2")), TokenType::LessEqual, num("3")),
                TokenType::Greater,
                num("4")
            ),
            TokenType::GreaterEqual,
            num("5")
        ))
    );
}

#[test]
fn each_level_binds_tighter_than_the_one_before() {
    assert_eq!(
        parse_source("1 == 2 < 3 + 4 * -5"),
        Ok(binary(
            num("1"),
            TokenType::EqualEqual,
            binary(
                num("2"),
                TokenType::Less,
                binary(
                    num("3"),
                    TokenType::Plus,
                    binary(num("4"), TokenType::Star, unary(TokenType::Minus, num("5")))
                )
            )
        ))
    );
    assert_eq!(
        parse_source("-1 * 2 + 3 < 4 == 5"),
        Ok(binary(
            binary(
                binary(
                    binary(unary(TokenType::Minus, num("1")), TokenType::Star, num("2")),
                    TokenType::Plus,
                    num("3")
                ),
                TokenType::Less,
                num("4")
            ),
            TokenType::EqualEqual,
            num("5")
        ))
    );
}

#[test]
fn operands_of_comparison_and_equality_are_whole_terms() {
    assert_eq!(
        parse_source("1 < 2 + 3"),
        Ok(binary(num("1"), TokenType::Less, binary(num("2"), TokenType::Plus, num("3"))))
    );
    assert_eq!(
        parse_source("1 == 2 + 3"),
        Ok(binary(
            num("1"),
            TokenType::EqualEqual,
            binary(num("2"), TokenType::Plus, num("3"))
        ))
    );
    assert_eq!(
        parse_source("1 != 2 > 3"),
        Ok(binary(
            num("1"),
            TokenType::BangEqual,
            binary(num("2"), TokenType::Greater, num("3"))
        ))
    );
}

#[test]
fn prefix_operators_nest_to_the_right() {
    assert_eq!(
        parse_source("!!true"),
        Ok(unary(
            TokenType::Bang,
            unary(
                TokenType::Bang,
                Expr::Literal(LiteralExpr::new(Some(LiteralValue::Bool(true))))
            )
        ))
    );
    assert_eq!(
        parse_source("-1 - -2"),
        Ok(binary(
            unary(TokenType::Minus, num("1")),
            TokenType::Minus,
            unary(TokenType::Minus, num("2"))
        ))
    );
    assert_eq!(
        parse_source("-(1)"),
        Ok(unary(TokenType::Minus, group(num("1"))))
    );
}

#[test]
fn literals() {
    assert_eq!(parse_source("12.5"), Ok(num("12.5")));
    assert_eq!(
        parse_source("\"lox\""),
        Ok(Expr::Literal(LiteralExpr::new(Some(LiteralValue::Text("lox".to_string())))))
    );
    assert_eq!(
        parse_source("true"),
        Ok(Expr::Literal(LiteralExpr::new(Some(LiteralValue::Bool(true)))))
    );
    assert_eq!(
        parse_source("false"),
        Ok(Expr::Literal(LiteralExpr::new(Some(LiteralValue::Bool(false)))))
    );
    assert_eq!(parse_source("nil"), Ok(Expr::Literal(LiteralExpr::new(None))));
    assert_eq!(parse_source("((nil))"), Ok(group(group(Expr::Literal(LiteralExpr::new(None))))));
}

#[test]
fn operator_tokens_keep_their_lines() {
    assert_eq!(
        parse_source("1\n+\n2"),
        Ok(Expr::Binary(BinaryExpr::new(num("1"), op(TokenType::Plus, 2), num("2"))))
    );
}

#[test]
fn unclosed_grouping_is_an_error() {
    assert_eq!(parse_source("(1 + 2"), Err(ParseError::UnclosedGrouping { line: 1 }));
    assert_eq!(parse_source("1 * (2"), Err(ParseError::UnclosedGrouping { line: 1 }));
    assert_eq!(parse_source("(1 2)"), Err(ParseError::UnclosedGrouping { line: 1 }));
}

#[test]
fn unclosed_grouping_reports_the_line_of_its_opening_parenthesis() {
    assert_eq!(parse_source("1 +\n\n(2 *\n3\n"), Err(ParseError::UnclosedGrouping { line: 3 }));
    assert_eq!(parse_source("(\n(1)\n"), Err(ParseError::UnclosedGrouping { line: 1 }));
}

#[test]
fn end_of_input_inside_an_expression_is_an_error() {
    assert_eq!(parse_source(""), Err(ParseError::UnexpectedEnd));
    assert_eq!(parse_source("1 +"), Err(ParseError::UnexpectedEnd));
    assert_eq!(parse_source("-"), Err(ParseError::UnexpectedEnd));
    assert_eq!(parse_source("("), Err(ParseError::UnexpectedEnd));
    assert_eq!(parse_source("(1 <"), Err(ParseError::UnexpectedEnd));
    assert_eq!(parse(vec![]), Err(ParseError::UnexpectedEnd));
    assert_eq!(
        parse(vec![
            Token {
                token_type: TokenType::Number,
                literal: Some(LiteralValue::Number("1".to_string())),
                line: 1
            },
            op(TokenType::Star, 1)
        ]),
        Err(ParseError::UnexpectedEnd)
    );
}

#[test]
fn token_that_starts_no_expression_is_an_error() {
    let expected_kinds = vec![
        TokenType::Number,
        TokenType::String,
        TokenType::True,
        TokenType::False,
        TokenType::Nil,
        TokenType::LeftParen,
    ];
    assert_eq!(
        parse_source(")"),
        Err(ParseError::UnexpectedToken {
            found: op(TokenType::RightParen, 1),
            expected_kinds: expected_kinds.clone(),
            line: 1
        })
    );
    assert_eq!(
        parse_source("1 +\n* 2"),
        Err(ParseError::UnexpectedToken {
            found: op(TokenType::Star, 2),
            expected_kinds: expected_kinds.clone(),
            line: 2
        })
    );
    assert_eq!(
        parse_source("(\n\nx)"),
        Err(ParseError::UnexpectedToken {
            found: Token {
                token_type: TokenType::Identifier,
                literal: Some(LiteralValue::Text("x".to_string())),
                line: 3
            },
            expected_kinds,
            line: 3
        })
    );
}

#[test]
fn tokens_after_the_expression_are_left_unread() {
    let mut parser = Parser::new(scan("1 + 2 3").unwrap());
    assert_eq!(parser.idx, 0);
    assert!(!parser.is_at_end());
    assert_eq!(parser.parse(), Ok(binary(num("1"), TokenType::Plus, num("2"))));
    assert_eq!(parser.idx, 3);
    assert!(!parser.is_at_end());
    assert_eq!(parser.parse(), Ok(num("3")));
    assert_eq!(parser.idx, 4);
    assert!(parser.is_at_end());
    assert_eq!(parser.parse(), Err(ParseError::UnexpectedEnd));
    assert_eq!(parser.tokens, scan("1 + 2 3").unwrap());
}

#[test]
fn number_and_string_tokens_give_their_literal() {
    assert_eq!(
        parse(vec![Token { token_type: TokenType::String, literal: None, line: 1 }]),
        Ok(Expr::Literal(LiteralExpr::new(None)))
    );
    assert_eq!(
        parse(vec![Token {
            token_type: TokenType::True,
            literal: Some(LiteralValue::Text("true".to_string())),
            line: 1
        }]),
        Ok(Expr::Literal(LiteralExpr::new(Some(LiteralValue::Bool(true)))))
    );
}

#[test]
fn constructors_keep_their_parts() {
    let b = BinaryExpr::new(num("1"), op(TokenType::Plus, 4), num("2"));
    assert_eq!(*b.left, num("1"));
    assert_eq!(b.operator, op(TokenType::Plus, 4));
    assert_eq!(*b.right, num("2"));
    let u = UnaryExpr::new(op(TokenType::Bang, 2), num("3"));
    assert_eq!(u.operator, op(TokenType::Bang, 2));
    assert_eq!(*u.right, num("3"));
    let g = GroupingExpr::new(num("4"));
    assert_eq!(*g.expr, num("4"));
    let l = LiteralExpr::new(Some(LiteralValue::Bool(false)));
    assert_eq!(l.value, Some(LiteralValue::Bool(false)));
}

fn written_with(expr: &Expr, out: &mut Vec<TokenType>) {
    match expr {
        Expr::Binary(e) => {
            written_with(&e.left, out);
            out.push(e.operator.token_type);
            written_with(&e.right, out);
        }
        Expr::Grouping(e) => {
            out.push(TokenType::LeftParen);
            written_with(&e.expr, out);
            out.push(TokenType::RightParen);
        }
        Expr::Literal(e) => out.push(match &e.value {
            Some(LiteralValue::Number(_)) => TokenType::Number,
            Some(LiteralValue::Text(_)) => TokenType::String,
            Some(LiteralValue::Bool(true)) => TokenType::True,
            Some(LiteralValue::Bool(false)) => TokenType::False,
            None => TokenType::Nil,
        }),
        Expr::Unary(e) => {
            out.push(e.operator.token_type);
            written_with(&e.right, out);
        }
    }
}

#[test]
fn tree_is_written_by_the_tokens_read() {
    for source in [
        "1",
        "1 + 2 * 3",
        "(1 + 2) * 3",
        "-1 - -2",
        "!(true == false) != nil",
        "1 < 2 == 3 >= 4 / 5 - \"six\"",
        "((1))",
        "1 + 2 3 4",
        "1 * (2 + 3) ) 4",
    ] {
        let tokens = scan(source).unwrap();
        let kinds: Vec<TokenType> = tokens.iter().map(|t| t.token_type).collect();
        let mut parser = Parser::new(tokens);
        let expr = parser.parse().unwrap();
        let mut written = Vec::new();
        written_with(&expr, &mut written);
        assert_eq!(written.as_slice(), &kinds[..parser.idx], "source: {:?}", source);
        assert!(!matches!(
            kinds[parser.idx],
            TokenType::BangEqual
                | TokenType::EqualEqual
                | TokenType::Greater
                | TokenType::GreaterEqual
                | TokenType::Less
                | TokenType::LessEqual
                | TokenType::Minus
                | TokenType::Plus
                | TokenType::Slash
                | TokenType::Star
        ));
    }
}

#[test]
fn parser_position_past_the_end_is_the_end() {
    let mut parser = Parser::new(scan("1").unwrap());
    parser.idx = 10;
    assert!(parser.is_at_end());
    assert_eq!(parser.parse(), Err(ParseError::UnexpectedEnd));
}

fn nested(open: &str, depth: usize, close: &str) -> String {
    format!("{}1{}", open.repeat(depth), close.repeat(depth))
}

#[test]
fn nesting_up_to_the_limit_is_read() {
    let expr = parse_source(&nested("(", 256, ")")).unwrap();
    let mut inner = &expr;
    let mut groupings = 0;
    while let Expr::Grouping(g) = inner {
        inner = &g.expr;
        groupings += 1;
    }
    assert_eq!(groupings, 256);
    assert_eq!(*inner, num("1"));
    assert!(parse_source(&nested("-", 256, "")).is_ok());
    assert!(parse_source(&nested("!(", 128, ")")).is_ok());
    assert!(parse_source(&nested("(1 + ", 256, " * 2)")).is_ok());
}

#[test]
fn nesting_beyond_the_limit_is_an_error() {
    assert_eq!(
        parse_source(&nested("(", 257, ")")),
        Err(ParseError::NestingTooDeep { line: 1 })
    );
    assert_eq!(
        parse_source(&nested("-", 257, "")),
        Err(ParseError::NestingTooDeep { line: 1 })
    );
    assert_eq!(
        parse_source(&nested("(-", 128, ")").replace("1", "(1)")),
        Err(ParseError::NestingTooDeep { line: 1 })
    );
    assert_eq!(
        parse_source(&format!("1 +\n2 *\n{}", nested("(\n", 300, ")"))),
        Err(ParseError::NestingTooDeep { line: 259 })
    );
    assert_eq!(
        parse_source(&nested("(", 200_000, ")")),
        Err(ParseError::NestingTooDeep { line: 1 })
    );
}

#[test]
fn long_chains_of_operators_are_not_nested() {
    let source = format!("1{}", " + 2 * 3".repeat(5_000));
    let tokens = scan(&source).unwrap();
    let count = tokens.len();
    let mut parser = Parser::new(tokens);
    assert!(parser.parse().is_ok());
    assert_eq!(parser.idx, count - 1);
}
