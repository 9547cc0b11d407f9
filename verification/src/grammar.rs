//! The grammar of expressions, as mathematical functions on a sequence of
//! tokens. The parser is proved against these.
//!
//! ```text
//! expression → equality
//! equality   → comparison ( ( "!=" | "==" ) comparison )*
//! comparison → term ( ( ">" | ">=" | "<" | "<=" ) term )*
//! term       → factor ( ( "-" | "+" ) factor )*
//! factor     → unary ( ( "/" | "*" ) unary )*
//! unary      → ( "!" | "-" ) unary | primary
//! primary    → NUMBER | STRING | "true" | "false" | "nil" | "(" expression ")"
//! ```

use crate::error::ParseErrorView;
use crate::repr::ExprView;
use crate::token::{LiteralView, TokenType, TokenView};
use vstd::prelude::*;

verus! {

/// The four levels of infix operators, from the one that binds least.
pub enum Level {
    Equality,
    Comparison,
    Term,
    Factor,
}

impl Level {
    /// How many levels bind at least as tightly as this one.
    pub open spec fn height(self) -> nat {
        match self {
            Level::Equality => 4,
            Level::Comparison => 3,
            Level::Term => 2,
            Level::Factor => 1,
        }
    }

    /// Whether a token of kind `kind` is an infix operator of this level.
    pub open spec fn has_operator(self, kind: TokenType) -> bool {
        match self {
            Level::Equality => kind == TokenType::BangEqual || kind == TokenType::EqualEqual,
            Level::Comparison => kind == TokenType::Greater || kind == TokenType::GreaterEqual
                || kind == TokenType::Less || kind == TokenType::LessEqual,
            Level::Term => kind == TokenType::Minus || kind == TokenType::Plus,
            Level::Factor => kind == TokenType::Slash || kind == TokenType::Star,
        }
    }
}

/// The greatest number of groupings and prefix operations that may
/// enclose an expression. It bounds how deep the parser calls itself.
pub const MAX_NESTING: usize = 256;

/// Whether a token of kind `kind` is a prefix operator.
pub open spec fn is_prefix_operator(kind: TokenType) -> bool {
    kind == TokenType::Bang || kind == TokenType::Minus
}

/// The kinds of token that can start a primary expression.
pub open spec fn primary_kinds() -> Seq<TokenType> {
    seq![
        TokenType::Number,
        TokenType::String,
        TokenType::True,
        TokenType::False,
        TokenType::Nil,
        TokenType::LeftParen,
    ]
}

/// An expression together with the number of tokens it was read from.
pub struct Parsed {
    pub expr: ExprView,
    pub consumed: nat,
}

/// The outcome of reading an expression from a position of the tokens.
pub type Outcome = Result<Parsed, ParseErrorView>;

/// The outcome `outcome` of a part that follows `before` tokens of the
/// whole.
pub open spec fn after(before: nat, outcome: Outcome) -> Outcome {
    match outcome {
        Ok(parsed) => Ok(Parsed { expr: parsed.expr, consumed: before + parsed.consumed }),
        Err(e) => Err(e),
    }
}

/// Whether a token stands at `pos` and is of kind `kind`.
pub open spec fn has_kind(tokens: Seq<TokenView>, pos: int, kind: TokenType) -> bool {
    0 <= pos < tokens.len() && tokens[pos].kind == kind
}

/// The number of tokens from position `pos` on.
pub open spec fn remaining(tokens: Seq<TokenView>, pos: int) -> nat {
    if pos <= tokens.len() {
        (tokens.len() - pos) as nat
    } else {
        0
    }
}

/// `primary` at position `pos`, inside `nesting` groupings and prefix
/// operations.
pub open spec fn parse_primary(tokens: Seq<TokenView>, pos: int, nesting: nat) -> Outcome
    decreases remaining(tokens, pos), 0nat,
{
    if pos < 0 || pos >= tokens.len() || tokens[pos].kind == TokenType::Eof {
        Err(ParseErrorView::UnexpectedEnd)
    } else {
        let token = tokens[pos];
        match token.kind {
            TokenType::False => Ok(
                Parsed {
                    expr: ExprView::Literal { value: Some(LiteralView::Bool(false)) },
                    consumed: 1,
                },
            ),
            TokenType::True => Ok(
                Parsed {
                    expr: ExprView::Literal { value: Some(LiteralView::Bool(true)) },
                    consumed: 1,
                },
            ),
            TokenType::Nil => Ok(Parsed { expr: ExprView::Literal { value: None }, consumed: 1 }),
            TokenType::Number | TokenType::String => Ok(
                Parsed { expr: ExprView::Literal { value: token.literal }, consumed: 1 },
            ),
            TokenType::LeftParen => if nesting >= MAX_NESTING {
                Err(ParseErrorView::NestingTooDeep { line: token.line })
            } else {
                match parse_binary(tokens, pos + 1, Level::Equality, nesting + 1) {
                    Ok(inner) => if has_kind(
                        tokens,
                        pos + 1 + inner.consumed,
                        TokenType::RightParen,
                    ) {
                        Ok(
                            Parsed {
                                expr: ExprView::Grouping { inner: Box::new(inner.expr) },
                                consumed: inner.consumed + 2,
                            },
                        )
                    } else {
                        Err(ParseErrorView::UnclosedGrouping { line: token.line })
                    },
                    Err(e) => Err(e),
                }
            },
            _ => Err(
                ParseErrorView::UnexpectedToken {
                    found: token,
                    expected_kinds: primary_kinds(),
                    line: token.line,
                },
            ),
        }
    }
}

/// `unary` at position `pos`, inside `nesting` groupings and prefix
/// operations.
pub open spec fn parse_unary(tokens: Seq<TokenView>, pos: int, nesting: nat) -> Outcome
    decreases remaining(tokens, pos), 1nat,
{
    if 0 <= pos < tokens.len() && is_prefix_operator(tokens[pos].kind) {
        if nesting >= MAX_NESTING {
            Err(ParseErrorView::NestingTooDeep { line: tokens[pos].line })
        } else {
            match parse_unary(tokens, pos + 1, nesting + 1) {
                Ok(operand) => Ok(
                    Parsed {
                        expr: ExprView::Unary {
                            operator: tokens[pos],
                            operand: Box::new(operand.expr),
                        },
                        consumed: operand.consumed + 1,
                    },
                ),
                Err(e) => Err(e),
            }
        }
    } else {
        parse_primary(tokens, pos, nesting)
    }
}

/// An operand of the infix operators of `level` at position `pos`: an
/// expression of the next level.
pub open spec fn parse_operand(
    tokens: Seq<TokenView>,
    pos: int,
    level: Level,
    nesting: nat,
) -> Outcome
    decreases remaining(tokens, pos), 2 * level.height(),
{
    match level {
        Level::Equality => parse_binary(tokens, pos, Level::Comparison, nesting),
        Level::Comparison => parse_binary(tokens, pos, Level::Term, nesting),
        Level::Term => parse_binary(tokens, pos, Level::Factor, nesting),
        Level::Factor => parse_unary(tokens, pos, nesting),
    }
}

/// What follows an operand of `level`: as long as an operator of the
/// level stands at `pos`, it and the operand after it are folded with
/// `left`, the expression read so far, into a binary node that takes the
/// place of `left`.
pub open spec fn parse_binary_rest(
    tokens: Seq<TokenView>,
    pos: int,
    left: ExprView,
    level: Level,
    nesting: nat,
) -> Outcome
    decreases remaining(tokens, pos), 0nat,
{
    if 0 <= pos < tokens.len() && level.has_operator(tokens[pos].kind) {
        match parse_operand(tokens, pos + 1, level, nesting) {
            Ok(right) => after(
                1 + right.consumed,
                parse_binary_rest(
                    tokens,
                    pos + 1 + right.consumed,
                    ExprView::Binary {
                        left: Box::new(left),
                        operator: tokens[pos],
                        right: Box::new(right.expr),
                    },
                    level,
                    nesting,
                ),
            ),
            Err(e) => Err(e),
        }
    } else {
        Ok(Parsed { expr: left, consumed: 0 })
    }
}

/// The production of `level` at position `pos`, inside `nesting` groupings
/// and prefix operations: an operand, then any
/// number of operators of the level each with its operand, folded to the
/// left.
pub open spec fn parse_binary(
    tokens: Seq<TokenView>,
    pos: int,
    level: Level,
    nesting: nat,
) -> Outcome
    decreases remaining(tokens, pos), 2 * level.height() + 1,
{
    match parse_operand(tokens, pos, level, nesting) {
        Ok(left) => after(
            left.consumed,
            parse_binary_rest(tokens, pos + left.consumed, left.expr, level, nesting),
        ),
        Err(e) => Err(e),
    }
}

/// `expression` at position `pos`, inside no grouping and no prefix
/// operation.
pub open spec fn parse_expression(tokens: Seq<TokenView>, pos: int) -> Outcome {
    parse_binary(tokens, pos, Level::Equality, 0)
}

} // verus!
