//! What it means that a tree is a reading of a run of tokens, and that
//! the trees of the grammar are exactly such readings: the tokens read are
//! those that write the tree, operators that bind tighter are nested
//! deeper, operators of one level are nested to the left, and no other
//! tree of that kind can be read from the same position.

use crate::grammar::{
    after, is_prefix_operator, parse_binary, parse_binary_rest, parse_expression, parse_operand,
    parse_primary, parse_unary, remaining, Level, Outcome, Parsed, MAX_NESTING,
};
use crate::error::ParseErrorView;
use crate::repr::ExprView;
use crate::token::{LiteralView, TokenType, TokenView};
use vstd::prelude::*;

verus! {

impl Level {
    /// How tightly the operators of this level bind, from 1 for equality to
    /// 4 for a factor.
    pub open spec fn strength(self) -> nat {
        match self {
            Level::Equality => 1,
            Level::Comparison => 2,
            Level::Term => 3,
            Level::Factor => 4,
        }
    }
}

/// How tightly a token of kind `kind` binds as an infix operator: the
/// strength of its level, or 0 where it is none.
pub open spec fn operator_strength(kind: TokenType) -> nat {
    if Level::Equality.has_operator(kind) {
        1
    } else if Level::Comparison.has_operator(kind) {
        2
    } else if Level::Term.has_operator(kind) {
        3
    } else if Level::Factor.has_operator(kind) {
        4
    } else {
        0
    }
}

/// How tightly the outermost node of `e` binds: an infix operation as its
/// operator, a prefix operation 5, a literal or a grouping 6.
pub open spec fn strength(e: ExprView) -> nat {
    match e {
        ExprView::Binary { left, operator, right } => operator_strength(operator.kind),
        ExprView::Unary { operator, operand } => 5,
        ExprView::Grouping { inner } => 6,
        ExprView::Literal { value } => 6,
    }
}

/// Whether the tree respects precedence and associativity: the left
/// operand of an infix operation binds at least as tightly as the operation
/// and its right operand more tightly, and the operand of a prefix
/// operation is a prefix operation, a literal or a grouping. Inside a
/// grouping any expression may stand.
pub open spec fn layered(e: ExprView) -> bool
    decreases e,
{
    match e {
        ExprView::Binary { left, operator, right } => {
            &&& 1 <= operator_strength(operator.kind)
            &&& layered(*left)
            &&& layered(*right)
            &&& strength(*left) >= operator_strength(operator.kind)
            &&& strength(*right) > operator_strength(operator.kind)
        },
        ExprView::Unary { operator, operand } => {
            &&& is_prefix_operator(operator.kind)
            &&& layered(*operand)
            &&& strength(*operand) >= 5
        },
        ExprView::Grouping { inner } => layered(*inner),
        ExprView::Literal { value } => true,
    }
}

/// The greatest number of groupings and prefix operations that enclose a
/// node of the tree.
pub open spec fn nest(e: ExprView) -> nat
    decreases e,
{
    match e {
        ExprView::Binary { left, operator, right } => if nest(*left) >= nest(*right) {
            nest(*left)
        } else {
            nest(*right)
        },
        ExprView::Unary { operator, operand } => 1 + nest(*operand),
        ExprView::Grouping { inner } => 1 + nest(*inner),
        ExprView::Literal { value } => 0,
    }
}

/// The number of tokens that an expression is written with.
pub open spec fn size(e: ExprView) -> nat
    decreases e,
{
    match e {
        ExprView::Binary { left, operator, right } => size(*left) + 1 + size(*right),
        ExprView::Unary { operator, operand } => 1 + size(*operand),
        ExprView::Grouping { inner } => size(*inner) + 2,
        ExprView::Literal { value } => 1,
    }
}

/// Whether `token` writes the literal `value`: `true`, `false` and `nil`
/// by their kind, a number or a string by what the token carries.
pub open spec fn writes_literal(token: TokenView, value: Option<LiteralView>) -> bool {
    match token.kind {
        TokenType::False => value == Some(LiteralView::Bool(false)),
        TokenType::True => value == Some(LiteralView::Bool(true)),
        TokenType::Nil => value is None,
        TokenType::Number | TokenType::String => value == token.literal,
        _ => false,
    }
}

/// Whether the tokens from position `from` on write the expression `e`:
/// they are, in order, the tokens of its operands and operators, with a
/// pair of parentheses around each grouping.
pub open spec fn written(e: ExprView, tokens: Seq<TokenView>, from: int) -> bool
    decreases e,
{
    &&& 0 <= from
    &&& from + size(e) <= tokens.len()
    &&& match e {
        ExprView::Binary { left, operator, right } => {
            &&& written(*left, tokens, from)
            &&& tokens[from + size(*left)] == operator
            &&& written(*right, tokens, from + size(*left) + 1)
        },
        ExprView::Unary { operator, operand } => {
            &&& tokens[from] == operator
            &&& written(*operand, tokens, from + 1)
        },
        ExprView::Grouping { inner } => {
            &&& tokens[from].kind == TokenType::LeftParen
            &&& written(*inner, tokens, from + 1)
            &&& tokens[from + 1 + size(*inner)].kind == TokenType::RightParen
        },
        ExprView::Literal { value } => writes_literal(tokens[from], value),
    }
}

/// Whether `outcome`, where it is an expression, is a faithful reading of
/// the tokens from `pos` on, inside `nesting` groupings and prefix
/// operations: the tokens read are those that write the expression, the
/// tree respects precedence and associativity, its outermost node binds with
/// strength `least` or more, and nothing in it is nested deeper than is
/// allowed.
pub open spec fn faithful(
    tokens: Seq<TokenView>,
    pos: int,
    outcome: Outcome,
    least: nat,
    nesting: nat,
) -> bool {
    match outcome {
        Ok(parsed) => {
            &&& parsed.consumed == size(parsed.expr)
            &&& written(parsed.expr, tokens, pos)
            &&& layered(parsed.expr)
            &&& strength(parsed.expr) >= least
            &&& nesting + nest(parsed.expr) <= MAX_NESTING
        },
        Err(_) => true,
    }
}

/// What `primary` reads is a literal or a grouping that the tokens write.
pub proof fn lemma_primary_faithful(tokens: Seq<TokenView>, pos: int, nesting: nat)
    requires
        nesting <= MAX_NESTING,
    ensures
        faithful(tokens, pos, parse_primary(tokens, pos, nesting), 6, nesting),
    decreases remaining(tokens, pos), 0nat,
{
    if 0 <= pos < tokens.len() && tokens[pos].kind == TokenType::LeftParen && nesting
        < MAX_NESTING {
        lemma_binary_faithful(tokens, pos + 1, Level::Equality, nesting + 1);
    }
}

/// What `unary` reads is a faithful reading that binds as a prefix
/// operation or tighter.
pub proof fn lemma_unary_faithful(tokens: Seq<TokenView>, pos: int, nesting: nat)
    requires
        nesting <= MAX_NESTING,
    ensures
        faithful(tokens, pos, parse_unary(tokens, pos, nesting), 5, nesting),
    decreases remaining(tokens, pos), 1nat,
{
    if 0 <= pos < tokens.len() && is_prefix_operator(tokens[pos].kind) {
        if nesting < MAX_NESTING {
            lemma_unary_faithful(tokens, pos + 1, nesting + 1);
        }
    } else {
        lemma_primary_faithful(tokens, pos, nesting);
    }
}

/// An operand of a level is a faithful reading that binds more tightly
/// than the operators of the level.
pub proof fn lemma_operand_faithful(tokens: Seq<TokenView>, pos: int, level: Level, nesting: nat)
    requires
        nesting <= MAX_NESTING,
    ensures
        faithful(
            tokens,
            pos,
            parse_operand(tokens, pos, level, nesting),
            level.strength() + 1,
            nesting,
        ),
    decreases remaining(tokens, pos), 2 * level.height(),
{
    match level {
        Level::Equality => lemma_binary_faithful(tokens, pos, Level::Comparison, nesting),
        Level::Comparison => lemma_binary_faithful(tokens, pos, Level::Term, nesting),
        Level::Term => lemma_binary_faithful(tokens, pos, Level::Factor, nesting),
        Level::Factor => lemma_unary_faithful(tokens, pos, nesting),
    }
}

/// Folding operators and operands of a level into a faithful reading
/// gives a faithful reading of all the tokens read.
pub proof fn lemma_binary_rest_faithful(
    tokens: Seq<TokenView>,
    from: int,
    pos: int,
    left: ExprView,
    level: Level,
    nesting: nat,
)
    requires
        nesting <= MAX_NESTING,
        pos == from + size(left),
        faithful(tokens, from, read(left), level.strength(), nesting),
    ensures
        faithful(
            tokens,
            from,
            after(size(left), parse_binary_rest(tokens, pos, left, level, nesting)),
            level.strength(),
            nesting,
        ),
    decreases remaining(tokens, pos), 0nat,
{
    if 0 <= pos < tokens.len() && level.has_operator(tokens[pos].kind) {
        lemma_operand_faithful(tokens, pos + 1, level, nesting);
        match parse_operand(tokens, pos + 1, level, nesting) {
            Ok(right) => {
                let folded = ExprView::Binary {
                    left: Box::new(left),
                    operator: tokens[pos],
                    right: Box::new(right.expr),
                };
                lemma_binary_rest_faithful(
                    tokens,
                    from,
                    pos + 1 + right.consumed,
                    folded,
                    level,
                    nesting,
                );
            },
            Err(_) => {},
        }
    }
}

/// The tree that a level of infix operators reads is a faithful reading
/// of the tokens read: they are exactly the tokens that write the tree,
/// operators of a tighter level are nested deeper, and operators of one
/// level are nested to the left.
pub proof fn lemma_binary_faithful(tokens: Seq<TokenView>, pos: int, level: Level, nesting: nat)
    requires
        nesting <= MAX_NESTING,
    ensures
        faithful(
            tokens,
            pos,
            parse_binary(tokens, pos, level, nesting),
            level.strength(),
            nesting,
        ),
    decreases remaining(tokens, pos), 2 * level.height() + 1,
{
    lemma_operand_faithful(tokens, pos, level, nesting);
    match parse_operand(tokens, pos, level, nesting) {
        Ok(left) => {
            lemma_binary_rest_faithful(
                tokens,
                pos,
                pos + left.consumed,
                left.expr,
                level,
                nesting,
            );
        },
        Err(_) => {},
    }
}

/// The tree that parsing gives is a faithful reading of the tokens read.
pub proof fn lemma_expression_faithful(tokens: Seq<TokenView>, pos: int)
    ensures
        faithful(tokens, pos, parse_expression(tokens, pos), 1, 0),
{
    lemma_binary_faithful(tokens, pos, Level::Equality, 0);
}

/// Whether no infix operator that binds with strength `least` or more
/// stands at position `pos`.
pub open spec fn ends(tokens: Seq<TokenView>, pos: int, least: nat) -> bool {
    0 <= pos < tokens.len() ==> operator_strength(tokens[pos].kind) < least
}

/// The outcome of reading all of `e`.
pub open spec fn read(e: ExprView) -> Outcome {
    Ok(Parsed { expr: e, consumed: size(e) })
}

/// The outermost node of a tree that respects precedence binds with
/// strength 1 or more.
pub proof fn lemma_layered_binds(e: ExprView)
    requires
        layered(e),
    ensures
        strength(e) >= 1,
{
}

/// A literal or a grouping that the tokens write is what `primary` reads.
pub proof fn lemma_primary_complete(tokens: Seq<TokenView>, pos: int, e: ExprView, nesting: nat)
    requires
        layered(e),
        written(e, tokens, pos),
        strength(e) >= 6,
        nesting + nest(e) <= MAX_NESTING,
    ensures
        parse_primary(tokens, pos, nesting) == read(e),
    decreases e, 0nat, 0nat,
{
    match e {
        ExprView::Grouping { inner } => {
            lemma_layered_binds(*inner);
            lemma_binary_complete(tokens, pos + 1, *inner, Level::Equality, nesting + 1);
        },
        _ => {},
    }
}

/// A prefix operation, a literal or a grouping that the tokens write is
/// what `unary` reads.
pub proof fn lemma_unary_complete(tokens: Seq<TokenView>, pos: int, e: ExprView, nesting: nat)
    requires
        layered(e),
        written(e, tokens, pos),
        strength(e) >= 5,
        nesting + nest(e) <= MAX_NESTING,
    ensures
        parse_unary(tokens, pos, nesting) == read(e),
    decreases e, 0nat, 1nat,
{
    match e {
        ExprView::Unary { operator, operand } => {
            lemma_unary_complete(tokens, pos + 1, *operand, nesting + 1);
        },
        _ => {
            lemma_primary_complete(tokens, pos, e, nesting);
        },
    }
}

/// A tree that binds more tightly than a level, that the tokens write and
/// that no operator of such strength follows is what is read as an operand
/// of the level.
pub proof fn lemma_operand_complete(
    tokens: Seq<TokenView>,
    pos: int,
    e: ExprView,
    level: Level,
    nesting: nat,
)
    requires
        layered(e),
        written(e, tokens, pos),
        strength(e) >= level.strength() + 1,
        ends(tokens, pos + size(e), level.strength() + 1),
        nesting + nest(e) <= MAX_NESTING,
    ensures
        parse_operand(tokens, pos, level, nesting) == read(e),
    decreases e, 2 * level.height(), 0nat,
{
    match level {
        Level::Equality => lemma_binary_complete(tokens, pos, e, Level::Comparison, nesting),
        Level::Comparison => lemma_binary_complete(tokens, pos, e, Level::Term, nesting),
        Level::Term => lemma_binary_complete(tokens, pos, e, Level::Factor, nesting),
        Level::Factor => lemma_unary_complete(tokens, pos, e, nesting),
    }
}

/// Reading a level from the start of a tree that the tokens write comes
/// to the same as going on behind the tree with the tree in hand.
pub proof fn lemma_binary_reads(
    tokens: Seq<TokenView>,
    pos: int,
    e: ExprView,
    level: Level,
    nesting: nat,
)
    requires
        layered(e),
        written(e, tokens, pos),
        strength(e) >= level.strength(),
        ends(tokens, pos + size(e), level.strength() + 1),
        nesting + nest(e) <= MAX_NESTING,
    ensures
        parse_binary(tokens, pos, level, nesting) == after(
            size(e),
            parse_binary_rest(tokens, pos + size(e), e, level, nesting),
        ),
    decreases e, 2 * level.height() + 1, 0nat,
{
    if strength(e) > level.strength() {
        lemma_operand_complete(tokens, pos, e, level, nesting);
    } else {
        match e {
            ExprView::Binary { left, operator, right } => {
                let at = pos + size(*left);
                lemma_binary_reads(tokens, pos, *left, level, nesting);
                lemma_operand_complete(tokens, at + 1, *right, level, nesting);
                assert(level.has_operator(tokens[at].kind));
                assert(parse_binary_rest(tokens, at, *left, level, nesting) == after(
                    1 + size(*right),
                    parse_binary_rest(tokens, pos + size(e), e, level, nesting),
                ));
            },
            _ => {},
        }
    }
}

/// A tree of a level that the tokens write and that no operator of the
/// level or a tighter one follows is what the level reads.
pub proof fn lemma_binary_complete(
    tokens: Seq<TokenView>,
    pos: int,
    e: ExprView,
    level: Level,
    nesting: nat,
)
    requires
        layered(e),
        written(e, tokens, pos),
        strength(e) >= level.strength(),
        ends(tokens, pos + size(e), level.strength()),
        nesting + nest(e) <= MAX_NESTING,
    ensures
        parse_binary(tokens, pos, level, nesting) == read(e),
    decreases e, 2 * level.height() + 1, 1nat,
{
    lemma_binary_reads(tokens, pos, e, level, nesting);
}

/// Behind what an operand of a level was read from stands no operator
/// that binds more tightly than the level.
pub proof fn lemma_operand_ends(tokens: Seq<TokenView>, pos: int, level: Level, nesting: nat)
    requires
        parse_operand(tokens, pos, level, nesting) is Ok,
    ensures
        ends(
            tokens,
            pos + parse_operand(tokens, pos, level, nesting)->Ok_0.consumed,
            level.strength() + 1,
        ),
    decreases remaining(tokens, pos), 2 * level.height(),
{
    match level {
        Level::Equality => lemma_binary_ends(tokens, pos, Level::Comparison, nesting),
        Level::Comparison => lemma_binary_ends(tokens, pos, Level::Term, nesting),
        Level::Term => lemma_binary_ends(tokens, pos, Level::Factor, nesting),
        Level::Factor => {},
    }
}

/// Behind what the operators and operands of a level were read from
/// stands no operator of the level or a tighter one, if none that is
/// tighter stood where they began.
pub proof fn lemma_binary_rest_ends(
    tokens: Seq<TokenView>,
    pos: int,
    left: ExprView,
    level: Level,
    nesting: nat,
)
    requires
        parse_binary_rest(tokens, pos, left, level, nesting) is Ok,
        ends(tokens, pos, level.strength() + 1),
    ensures
        ends(
            tokens,
            pos + parse_binary_rest(tokens, pos, left, level, nesting)->Ok_0.consumed,
            level.strength(),
        ),
    decreases remaining(tokens, pos), 0nat,
{
    if 0 <= pos < tokens.len() && level.has_operator(tokens[pos].kind) {
        lemma_operand_ends(tokens, pos + 1, level, nesting);
        let right = parse_operand(tokens, pos + 1, level, nesting)->Ok_0;
        let folded = ExprView::Binary {
            left: Box::new(left),
            operator: tokens[pos],
            right: Box::new(right.expr),
        };
        lemma_binary_rest_ends(tokens, pos + 1 + right.consumed, folded, level, nesting);
    }
}

/// Behind what a level was read from stands no operator of the level or
/// a tighter one: a level reads on as long as it can.
pub proof fn lemma_binary_ends(tokens: Seq<TokenView>, pos: int, level: Level, nesting: nat)
    requires
        parse_binary(tokens, pos, level, nesting) is Ok,
    ensures
        ends(
            tokens,
            pos + parse_binary(tokens, pos, level, nesting)->Ok_0.consumed,
            level.strength(),
        ),
    decreases remaining(tokens, pos), 2 * level.height() + 1,
{
    lemma_operand_ends(tokens, pos, level, nesting);
    let left = parse_operand(tokens, pos, level, nesting)->Ok_0;
    lemma_binary_rest_ends(tokens, pos + left.consumed, left.expr, level, nesting);
}

/// Parsing reads a tree from a position exactly when the tree is the
/// reading of the tokens there: they write it, it respects precedence and
/// associativity, nothing in it is nested deeper than is allowed, and no
/// infix operator follows it.
pub proof fn lemma_expression_is_the_reading(tokens: Seq<TokenView>, pos: int, e: ExprView)
    ensures
        (exists|consumed: nat|
            parse_expression(tokens, pos) == Ok::<Parsed, ParseErrorView>(
                Parsed { expr: e, consumed },
            )) <==> {
            &&& written(e, tokens, pos)
            &&& layered(e)
            &&& nest(e) <= MAX_NESTING
            &&& ends(tokens, pos + size(e), 1)
        },
{
    lemma_expression_faithful(tokens, pos);
    if parse_expression(tokens, pos) is Ok {
        lemma_binary_ends(tokens, pos, Level::Equality, 0);
    }
    if written(e, tokens, pos) && layered(e) && nest(e) <= MAX_NESTING && ends(
        tokens,
        pos + size(e),
        1,
    ) {
        lemma_layered_binds(e);
        lemma_binary_complete(tokens, pos, e, Level::Equality, 0);
        assert(parse_expression(tokens, pos) == Ok::<Parsed, ParseErrorView>(
            Parsed { expr: e, consumed: size(e) },
        ));
    }
}

} // verus!
