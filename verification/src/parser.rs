//! The parser: recursive descent over a sequence of tokens, one function
//! for each production of the grammar.

use crate::error::{ParseError, ParseErrorView};
use crate::grammar::{
    after, parse_binary, parse_binary_rest, parse_expression, parse_operand, parse_primary,
    parse_unary, Level, Outcome, Parsed, MAX_NESTING,
};
use crate::repr::{BinaryExpr, Expr, ExprView, GroupingExpr, LiteralExpr, UnaryExpr};
use crate::token::{token_views, LiteralValue, Token, TokenType, TokenView};
use vstd::prelude::*;

verus! {

/// A parser over a sequence of tokens, with the position of the next
/// token to read.
pub struct Parser {
    pub tokens: Vec<Token>,
    pub idx: usize,
}

/// Whether the result `r` of a parsing function that moved the position
/// from `before` to `after` is the outcome `outcome`: on success the
/// expression and the number of tokens read, on failure the error.
pub open spec fn produced(
    before: usize,
    after: usize,
    r: Result<Expr, ParseError>,
    outcome: Outcome,
) -> bool {
    match outcome {
        Ok(parsed) => r is Ok && r->Ok_0@ == parsed.expr && after == before + parsed.consumed,
        Err(e) => r is Err && r->Err_0@ == e,
    }
}

/// Whether `kind` is an operator of equality.
fn is_equality_operator(kind: TokenType) -> (b: bool)
    ensures
        b == Level::Equality.has_operator(kind),
{
    matches!(kind, TokenType::BangEqual | TokenType::EqualEqual)
}

/// Whether `kind` is an operator of comparison.
fn is_comparison_operator(kind: TokenType) -> (b: bool)
    ensures
        b == Level::Comparison.has_operator(kind),
{
    matches!(
        kind,
        TokenType::Greater | TokenType::GreaterEqual | TokenType::Less | TokenType::LessEqual
    )
}

/// Whether `kind` is an operator of a term.
fn is_term_operator(kind: TokenType) -> (b: bool)
    ensures
        b == Level::Term.has_operator(kind),
{
    matches!(kind, TokenType::Minus | TokenType::Plus)
}

/// Whether `kind` is an operator of a factor.
fn is_factor_operator(kind: TokenType) -> (b: bool)
    ensures
        b == Level::Factor.has_operator(kind),
{
    matches!(kind, TokenType::Slash | TokenType::Star)
}

impl Parser {
    /// The position is inside the tokens or at their end.
    pub open spec fn wf(&self) -> bool {
        self.idx <= self.tokens.len()
    }

    /// What the tokens stand for.
    pub open spec fn views(&self) -> Seq<TokenView> {
        token_views(self.tokens@)
    }

    /// A parser at the first of `tokens`.
    #[must_use]
    pub fn new(tokens: Vec<Token>) -> (parser: Parser)
        ensures
            parser.tokens == tokens,
            parser.idx == 0,
            parser.wf(),
    {
        Parser { tokens, idx: 0 }
    }

    /// Whether no token is left but the end-of-input token, if it is there.
    pub fn is_at_end(&self) -> (at_end: bool)
        ensures
            at_end == (self.idx >= self.tokens@.len() || self.tokens@[self.idx as int].token_type
                == TokenType::Eof),
    {
        self.idx >= self.tokens.len() || matches!(self.tokens[self.idx].token_type, TokenType::Eof)
    }

    /// The kind of the next token, if there is one.
    fn peek(&self) -> (kind: Option<TokenType>)
        ensures
            kind == if self.idx < self.tokens@.len() {
                Some(self.views()[self.idx as int].kind)
            } else {
                None
            },
    {
        if self.idx < self.tokens.len() {
            Some(self.tokens[self.idx].token_type)
        } else {
            None
        }
    }

    /// The token read last.
    fn previous(&self) -> (token: &Token)
        requires
            0 < self.idx <= self.tokens.len(),
        ensures
            *token == self.tokens@[self.idx - 1],
    {
        &self.tokens[self.idx - 1]
    }

    /// Reads the next token.
    fn advance(&mut self) -> (token: &Token)
        requires
            old(self).idx < old(self).tokens.len(),
        ensures
            final(self).tokens == old(self).tokens,
            final(self).idx == old(self).idx + 1,
            *token == old(self).tokens@[old(self).idx as int],
    {
        self.idx += 1;
        self.previous()
    }

    /// `primary → NUMBER | STRING | "true" | "false" | "nil" | "(" expression ")"`
    fn primary(&mut self, nesting: usize) -> (r: Result<Expr, ParseError>)
        requires
            nesting <= MAX_NESTING,
        ensures
            old(self).wf() ==> final(self).wf(),
            final(self).tokens == old(self).tokens,
            produced(
                old(self).idx,
                final(self).idx,
                r,
                parse_primary(old(self).views(), old(self).idx as int, nesting as nat),
            ),
        decreases old(self).tokens@.len() - old(self).idx, 0nat,
    {
        if self.is_at_end() {
            return Err(ParseError::UnexpectedEnd);
        }
        let token = self.advance().clone();
        match token.token_type {
            TokenType::False => Ok(Expr::Literal(LiteralExpr::new(Some(LiteralValue::Bool(false))))),
            TokenType::True => Ok(Expr::Literal(LiteralExpr::new(Some(LiteralValue::Bool(true))))),
            TokenType::Nil => Ok(Expr::Literal(LiteralExpr::new(None))),
            TokenType::Number | TokenType::String => Ok(
                Expr::Literal(LiteralExpr::new(token.literal)),
            ),
            TokenType::LeftParen => {
                if nesting >= MAX_NESTING {
                    return Err(ParseError::NestingTooDeep { line: token.line });
                }
                match self.expression(nesting + 1) {
                    Ok(expr) => {
                        if matches!(self.peek(), Some(TokenType::RightParen)) {
                            let _ = self.advance();
                            Ok(Expr::Grouping(GroupingExpr::new(expr)))
                        } else {
                            Err(ParseError::UnclosedGrouping { line: token.line })
                        }
                    },
                    Err(e) => Err(e),
                }
            },
            _ => {
                let line = token.line;
                Err(
                    ParseError::UnexpectedToken {
                        found: token,
                        expected_kinds: vec![
                            TokenType::Number,
                            TokenType::String,
                            TokenType::True,
                            TokenType::False,
                            TokenType::Nil,
                            TokenType::LeftParen,
                        ],
                        line,
                    },
                )
            },
        }
    }

    /// `unary → ( "!" | "-" ) unary | primary`
    fn unary(&mut self, nesting: usize) -> (r: Result<Expr, ParseError>)
        requires
            nesting <= MAX_NESTING,
        ensures
            old(self).wf() ==> final(self).wf(),
            final(self).tokens == old(self).tokens,
            produced(
                old(self).idx,
                final(self).idx,
                r,
                parse_unary(old(self).views(), old(self).idx as int, nesting as nat),
            ),
        decreases old(self).tokens@.len() - old(self).idx, 1nat,
    {
        match self.peek() {
            Some(TokenType::Bang) | Some(TokenType::Minus) => {
                let operator = self.advance().clone();
                if nesting >= MAX_NESTING {
                    return Err(ParseError::NestingTooDeep { line: operator.line });
                }
                match self.unary(nesting + 1) {
                    Ok(right) => Ok(Expr::Unary(UnaryExpr::new(operator, right))),
                    Err(e) => Err(e),
                }
            },
            _ => self.primary(nesting),
        }
    }

    /// `factor → unary ( ( "/" | "*" ) unary )*`
    fn factor(&mut self, nesting: usize) -> (r: Result<Expr, ParseError>)
        requires
            nesting <= MAX_NESTING,
        ensures
            old(self).wf() ==> final(self).wf(),
            final(self).tokens == old(self).tokens,
            produced(
                old(self).idx,
                final(self).idx,
                r,
                parse_binary(
                    old(self).views(),
                    old(self).idx as int,
                    Level::Factor,
                    nesting as nat,
                ),
            ),
        decreases old(self).tokens@.len() - old(self).idx, 3nat,
    {
        let ghost tokens = self.views();
        let ghost from = self.idx;
        let mut expr = match self.unary(nesting) {
            Ok(expr) => expr,
            Err(e) => {
                return Err(e);
            },
        };
        loop
            invariant
                nesting <= MAX_NESTING,
                old(self).wf() ==> self.wf(),
                self.tokens == old(self).tokens,
                self.views() == tokens,
                from == old(self).idx,
                from <= self.idx,
                parse_binary(tokens, from as int, Level::Factor, nesting as nat) == after(
                    (self.idx - from) as nat,
                    parse_binary_rest(
                        tokens,
                        self.idx as int,
                        expr@,
                        Level::Factor,
                        nesting as nat,
                    ),
                ),
            decreases self.tokens@.len() - self.idx,
        {
            let more = match self.peek() {
                Some(kind) => is_factor_operator(kind),
                None => false,
            };
            if !more {
                return Ok(expr);
            }
            let ghost at = self.idx;
            let ghost left = expr@;
            let operator = self.advance().clone();
            let right = match self.unary(nesting) {
                Ok(right) => right,
                Err(e) => {
                    proof {
                        lemma_fold_failed(tokens, from, at, left, Level::Factor, nesting as nat);
                    }
                    return Err(e);
                },
            };
            expr = Expr::Binary(BinaryExpr::new(expr, operator, right));
            proof {
                lemma_folded(
                    tokens,
                    from,
                    at,
                    self.idx,
                    left,
                    expr@,
                    Level::Factor,
                    nesting as nat,
                );
            }
        }
    }

    /// `term → factor ( ( "-" | "+" ) factor )*`
    fn term(&mut self, nesting: usize) -> (r: Result<Expr, ParseError>)
        requires
            nesting <= MAX_NESTING,
        ensures
            old(self).wf() ==> final(self).wf(),
            final(self).tokens == old(self).tokens,
            produced(
                old(self).idx,
                final(self).idx,
                r,
                parse_binary(
                    old(self).views(),
                    old(self).idx as int,
                    Level::Term,
                    nesting as nat,
                ),
            ),
        decreases old(self).tokens@.len() - old(self).idx, 5nat,
    {
        let ghost tokens = self.views();
        let ghost from = self.idx;
        let mut expr = match self.factor(nesting) {
            Ok(expr) => expr,
            Err(e) => {
                return Err(e);
            },
        };
        loop
            invariant
                nesting <= MAX_NESTING,
                old(self).wf() ==> self.wf(),
                self.tokens == old(self).tokens,
                self.views() == tokens,
                from == old(self).idx,
                from <= self.idx,
                parse_binary(tokens, from as int, Level::Term, nesting as nat) == after(
                    (self.idx - from) as nat,
                    parse_binary_rest(
                        tokens,
                        self.idx as int,
                        expr@,
                        Level::Term,
                        nesting as nat,
                    ),
                ),
            decreases self.tokens@.len() - self.idx,
        {
            let more = match self.peek() {
                Some(kind) => is_term_operator(kind),
                None => false,
            };
            if !more {
                return Ok(expr);
            }
            let ghost at = self.idx;
            let ghost left = expr@;
            let operator = self.advance().clone();
            let right = match self.factor(nesting) {
                Ok(right) => right,
                Err(e) => {
                    proof {
                        lemma_fold_failed(tokens, from, at, left, Level::Term, nesting as nat);
                    }
                    return Err(e);
                },
            };
            expr = Expr::Binary(BinaryExpr::new(expr, operator, right));
            proof {
                lemma_folded(
                    tokens,
                    from,
                    at,
                    self.idx,
                    left,
                    expr@,
                    Level::Term,
                    nesting as nat,
                );
            }
        }
    }

    /// `comparison → term ( ( ">" | ">=" | "<" | "<=" ) term )*`
    fn comparison(&mut self, nesting: usize) -> (r: Result<Expr, ParseError>)
        requires
            nesting <= MAX_NESTING,
        ensures
            old(self).wf() ==> final(self).wf(),
            final(self).tokens == old(self).tokens,
            produced(
                old(self).idx,
                final(self).idx,
                r,
                parse_binary(
                    old(self).views(),
                    old(self).idx as int,
                    Level::Comparison,
                    nesting as nat,
                ),
            ),
        decreases old(self).tokens@.len() - old(self).idx, 7nat,
    {
        let ghost tokens = self.views();
        let ghost from = self.idx;
        let mut expr = match self.term(nesting) {
            Ok(expr) => expr,
            Err(e) => {
                return Err(e);
            },
        };
        loop
            invariant
                nesting <= MAX_NESTING,
                old(self).wf() ==> self.wf(),
                self.tokens == old(self).tokens,
                self.views() == tokens,
                from == old(self).idx,
                from <= self.idx,
                parse_binary(tokens, from as int, Level::Comparison, nesting as nat) == after(
                    (self.idx - from) as nat,
                    parse_binary_rest(
                        tokens,
                        self.idx as int,
                        expr@,
                        Level::Comparison,
                        nesting as nat,
                    ),
                ),
            decreases self.tokens@.len() - self.idx,
        {
            let more = match self.peek() {
                Some(kind) => is_comparison_operator(kind),
                None => false,
            };
            if !more {
                return Ok(expr);
            }
            let ghost at = self.idx;
            let ghost left = expr@;
            let operator = self.advance().clone();
            let right = match self.term(nesting) {
                Ok(right) => right,
                Err(e) => {
                    proof {
                        lemma_fold_failed(tokens, from, at, left, Level::Comparison, nesting as nat);
                    }
                    return Err(e);
                },
            };
            expr = Expr::Binary(BinaryExpr::new(expr, operator, right));
            proof {
                lemma_folded(
                    tokens,
                    from,
                    at,
                    self.idx,
                    left,
                    expr@,
                    Level::Comparison,
                    nesting as nat,
                );
            }
        }
    }

    /// `equality → comparison ( ( "!=" | "==" ) comparison )*`
    fn equality(&mut self, nesting: usize) -> (r: Result<Expr, ParseError>)
        requires
            nesting <= MAX_NESTING,
        ensures
            old(self).wf() ==> final(self).wf(),
            final(self).tokens == old(self).tokens,
            produced(
                old(self).idx,
                final(self).idx,
                r,
                parse_binary(
                    old(self).views(),
                    old(self).idx as int,
                    Level::Equality,
                    nesting as nat,
                ),
            ),
        decreases old(self).tokens@.len() - old(self).idx, 9nat,
    {
        let ghost tokens = self.views();
        let ghost from = self.idx;
        let mut expr = match self.comparison(nesting) {
            Ok(expr) => expr,
            Err(e) => {
                return Err(e);
            },
        };
        loop
            invariant
                nesting <= MAX_NESTING,
                old(self).wf() ==> self.wf(),
                self.tokens == old(self).tokens,
                self.views() == tokens,
                from == old(self).idx,
                from <= self.idx,
                parse_binary(tokens, from as int, Level::Equality, nesting as nat) == after(
                    (self.idx - from) as nat,
                    parse_binary_rest(
                        tokens,
                        self.idx as int,
                        expr@,
                        Level::Equality,
                        nesting as nat,
                    ),
                ),
            decreases self.tokens@.len() - self.idx,
        {
            let more = match self.peek() {
                Some(kind) => is_equality_operator(kind),
                None => false,
            };
            if !more {
                return Ok(expr);
            }
            let ghost at = self.idx;
            let ghost left = expr@;
            let operator = self.advance().clone();
            let right = match self.comparison(nesting) {
                Ok(right) => right,
                Err(e) => {
                    proof {
                        lemma_fold_failed(tokens, from, at, left, Level::Equality, nesting as nat);
                    }
                    return Err(e);
                },
            };
            expr = Expr::Binary(BinaryExpr::new(expr, operator, right));
            proof {
                lemma_folded(
                    tokens,
                    from,
                    at,
                    self.idx,
                    left,
                    expr@,
                    Level::Equality,
                    nesting as nat,
                );
            }
        }
    }

    /// `expression → equality`
    fn expression(&mut self, nesting: usize) -> (r: Result<Expr, ParseError>)
        requires
            nesting <= MAX_NESTING,
        ensures
            old(self).wf() ==> final(self).wf(),
            final(self).tokens == old(self).tokens,
            produced(
                old(self).idx,
                final(self).idx,
                r,
                parse_binary(
                    old(self).views(),
                    old(self).idx as int,
                    Level::Equality,
                    nesting as nat,
                ),
            ),
        decreases old(self).tokens@.len() - old(self).idx, 10nat,
    {
        self.equality(nesting)
    }

    /// Reads one expression from the tokens at the position of the parser
    /// and moves the position behind it. Tokens that follow the expression
    /// are left unread. An expression inside more than `MAX_NESTING`
    /// groupings and prefix operations is refused.
    pub fn parse(&mut self) -> (r: Result<Expr, ParseError>)
        ensures
            old(self).wf() ==> final(self).wf(),
            final(self).tokens == old(self).tokens,
            produced(
                old(self).idx,
                final(self).idx,
                r,
                parse_expression(old(self).views(), old(self).idx as int),
            ),
    {
        self.expression(0)
    }
}

/// The expression that `tokens` start with, or the first error met in
/// reading it. Tokens that follow the expression are left unread. An
/// expression inside more than `MAX_NESTING` groupings and prefix operations
/// is refused.
pub fn parse(tokens: Vec<Token>) -> (r: Result<Expr, ParseError>)
    ensures
        match parse_expression(token_views(tokens@), 0) {
            Ok(parsed) => r is Ok && r->Ok_0@ == parsed.expr,
            Err(e) => r is Err && r->Err_0@ == e,
        },
{
    let mut parser = Parser::new(tokens);
    parser.parse()
}

/// Folding one more operator and operand into the expression read so far
/// keeps the loop of a binary level in step with the grammar.
proof fn lemma_folded(
    tokens: Seq<TokenView>,
    from: usize,
    at: usize,
    next: usize,
    left: ExprView,
    folded: ExprView,
    level: Level,
    nesting: nat,
)
    requires
        from <= at < next,
        at < tokens.len(),
        level.has_operator(tokens[at as int].kind),
        parse_operand(tokens, at + 1, level, nesting) is Ok,
        next == at + 1 + parse_operand(tokens, at + 1, level, nesting)->Ok_0.consumed,
        folded == (ExprView::Binary {
            left: Box::new(left),
            operator: tokens[at as int],
            right: Box::new(parse_operand(tokens, at + 1, level, nesting)->Ok_0.expr),
        }),
        parse_binary(tokens, from as int, level, nesting) == after(
            (at - from) as nat,
            parse_binary_rest(tokens, at as int, left, level, nesting),
        ),
    ensures
        parse_binary(tokens, from as int, level, nesting) == after(
            (next - from) as nat,
            parse_binary_rest(tokens, next as int, folded, level, nesting),
        ),
{
}

/// Where the operand after an operator cannot be read, neither can the
/// production of the level.
proof fn lemma_fold_failed(
    tokens: Seq<TokenView>,
    from: usize,
    at: usize,
    left: ExprView,
    level: Level,
    nesting: nat,
)
    requires
        from <= at < tokens.len(),
        level.has_operator(tokens[at as int].kind),
        parse_operand(tokens, at + 1, level, nesting) is Err,
        parse_binary(tokens, from as int, level, nesting) == after(
            (at - from) as nat,
            parse_binary_rest(tokens, at as int, left, level, nesting),
        ),
    ensures
        parse_binary(tokens, from as int, level, nesting) == Err::<Parsed, ParseErrorView>(
            parse_operand(tokens, at + 1, level, nesting)->Err_0,
        ),
{
}

} // verus!
