use loxrs::lexer::scan;
use loxrs::parser::parse;
use loxrs::repr::{render, AstPrinter, BinaryExpr, Expr, GroupingExpr, LiteralExpr, UnaryExpr};
use loxrs::token::{LiteralValue, Token, TokenType};

fn render_source(source: &str) -> String {
    render(&parse(scan(source).unwrap()).unwrap())
}

fn nesting(text: &str) -> usize {
    let mut quoted = false;
    let mut open = 0usize;
    let mut deepest = 0usize;
    for c in text.chars() {
        if c == '"' {
            quoted = !quoted;
        } else if quoted {
        } else if c == '(' {
            open += 1;
            deepest = deepest.max(open);
        } else if c == ')' {
            open -= 1;
        }
    }
    assert!(!quoted);
    assert_eq!(open, 0);
    deepest
}

fn depth(expr: &Expr) -> usize {
    match expr {
        Expr::Binary(e) => 1 + depth(&e.left).max(depth(&e.right)),
        Expr::Grouping(e) => 1 + depth(&e.expr),
        Expr::Literal(_) => 1,
        Expr::Unary(e) => 1 + depth(&e.right),
    }
}

#[test]
fn renders_a_sum() {
    let text = render_source("1 + 2");
    assert_eq!(text, "( ( 1 ) Plus ( 2 ) )");
    assert!(text.contains("( 1 )"));
    assert!(text.contains("( 2 )"));
    assert!(text.contains("Plus"));
    assert!(text.starts_with("( ") && text.ends_with(" )"));
    assert_eq!(nesting(&text), 2);
}

#[test]
fn renders_each_shape() {
    assert_eq!(render_source("1.5"), "( 1.5 )");
    assert_eq!(render_source("\"lox\""), "( \"lox\" )");
    assert_eq!(render_source("true"), "( true )");
    assert_eq!(render_source("false"), "( false )");
    assert_eq!(render_source("nil"), "( nil )");
    assert_eq!(render_source("(1)"), "( ( 1 ) )");
    assert_eq!(render_source("-1"), "( Minus ( 1 ) )");
    assert_eq!(render_source("!true"), "( Bang ( true ) )");
    assert_eq!(render_source("1 <= 2"), "( ( 1 ) LessEqual ( 2 ) )");
}

#[test]
fn renders_nested_expressions() {
    assert_eq!(
        render_source("1 + 2 * 3"),
        "( ( 1 ) Plus ( ( 2 ) Star ( 3 ) ) )"
    );
    assert_eq!(
        render_source("(1 + 2) * 3"),
        "( ( ( ( 1 ) Plus ( 2 ) ) ) Star ( 3 ) )"
    );
    assert_eq!(
        render_source("-(1 == \"a b\")"),
        "( Minus ( ( ( 1 ) EqualEqual ( \"a b\" ) ) ) )"
    );
}

#[test]
fn nesting_depth_is_tree_depth() {
    for source in [
        "1",
        "1 + 2",
        "1 + 2 * 3",
        "(1 + 2) * 3",
        "((((nil))))",
        "!-!-1",
        "1 - 2 - 3 - 4 - 5",
        "1 == (2 < -(3 + 4) * \"five\") != !true",
        "\"(\"",
        "\"((\" == \")\" + (\"\")",
        "!\") ( ) (\"",
    ] {
        let expr = parse(scan(source).unwrap()).unwrap();
        assert_eq!(nesting(&render(&expr)), depth(&expr), "source: {:?}", source);
    }
}

#[test]
fn parentheses_inside_a_text_are_part_of_the_text() {
    assert_eq!(render_source("\"(\""), "( \"(\" )");
    assert_eq!(nesting("( \"(\" )"), 1);
    assert_eq!(
        render_source("\"((\" == \")\""),
        "( ( \"((\" ) EqualEqual ( \")\" ) )"
    );
}

#[test]
fn printer_visit_and_accept_agree_with_render() {
    let expr = Expr::Binary(BinaryExpr::new(
        Expr::Unary(UnaryExpr::new(
            Token { token_type: TokenType::Minus, literal: None, line: 1 },
            Expr::Literal(LiteralExpr::new(Some(LiteralValue::Number("1".to_string())))),
        )),
        Token { token_type: TokenType::Slash, literal: None, line: 2 },
        Expr::Grouping(GroupingExpr::new(Expr::Literal(LiteralExpr::new(None)))),
    ));
    let expected = "( ( Minus ( 1 ) ) Slash ( ( nil ) ) )";
    assert_eq!(render(&expr), expected);
    assert_eq!(AstPrinter {}.visit(&expr), expected);
    assert_eq!(expr.accept(&AstPrinter {}), expected);
}
