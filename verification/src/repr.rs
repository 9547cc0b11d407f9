//! The expression tree.

use crate::token::{kind_name, literal_view, LiteralValue, LiteralView, Token, TokenView};
use vstd::prelude::*;

verus! {

/// An expression. Every node owns its subtrees.
#[derive(Debug, PartialEq, Eq)]
pub enum Expr {
    Binary(BinaryExpr),
    Grouping(GroupingExpr),
    Literal(LiteralExpr),
    Unary(UnaryExpr),
}

/// An infix operation: `left operator right`.
#[derive(Debug, PartialEq, Eq)]
pub struct BinaryExpr {
    pub left: Box<Expr>,
    pub operator: Token,
    pub right: Box<Expr>,
}

/// An expression in parentheses.
#[derive(Debug, PartialEq, Eq)]
pub struct GroupingExpr {
    pub expr: Box<Expr>,
}

/// A constant; `None` is the absence of a value.
#[derive(Debug, PartialEq, Eq)]
pub struct LiteralExpr {
    pub value: Option<LiteralValue>,
}

/// A prefix operation: `operator right`.
#[derive(Debug, PartialEq, Eq)]
pub struct UnaryExpr {
    pub operator: Token,
    pub right: Box<Expr>,
}

/// What an `Expr` stands for.
pub enum ExprView {
    Binary { left: Box<ExprView>, operator: TokenView, right: Box<ExprView> },
    Grouping { inner: Box<ExprView> },
    Literal { value: Option<LiteralView> },
    Unary { operator: TokenView, operand: Box<ExprView> },
}

/// The view of an expression: the same tree over the views of its tokens
/// and literals.
pub open spec fn expr_view(e: Expr) -> ExprView
    decreases e,
{
    match e {
        Expr::Binary(b) => ExprView::Binary {
            left: Box::new(expr_view(*b.left)),
            operator: b.operator@,
            right: Box::new(expr_view(*b.right)),
        },
        Expr::Grouping(g) => ExprView::Grouping { inner: Box::new(expr_view(*g.expr)) },
        Expr::Literal(l) => ExprView::Literal { value: literal_view(l.value) },
        Expr::Unary(u) => ExprView::Unary {
            operator: u.operator@,
            operand: Box::new(expr_view(*u.right)),
        },
    }
}

impl View for Expr {
    type V = ExprView;

    open spec fn view(&self) -> ExprView {
        expr_view(*self)
    }
}

impl BinaryExpr {
    #[must_use]
    pub fn new(left: Expr, operator: Token, right: Expr) -> (e: BinaryExpr)
        ensures
            *e.left == left,
            e.operator == operator,
            *e.right == right,
    {
        BinaryExpr { left: Box::new(left), operator, right: Box::new(right) }
    }
}

impl GroupingExpr {
    #[must_use]
    pub fn new(expr: Expr) -> (e: GroupingExpr)
        ensures
            *e.expr == expr,
    {
        GroupingExpr { expr: Box::new(expr) }
    }
}

impl LiteralExpr {
    #[must_use]
    pub fn new(value: Option<LiteralValue>) -> (e: LiteralExpr)
        ensures
            e.value == value,
    {
        LiteralExpr { value }
    }
}

impl UnaryExpr {
    #[must_use]
    pub fn new(operator: Token, right: Expr) -> (e: UnaryExpr)
        ensures
            e.operator == operator,
            *e.right == right,
    {
        UnaryExpr { operator, right: Box::new(right) }
    }
}

/// The rendering of the value of a literal: a text between double quotes,
/// a number as its numeral, a boolean as `true` or `false`, and `nil` for
/// the absence of a value.
pub open spec fn render_literal(value: Option<LiteralView>) -> Seq<char> {
    match value {
        Some(LiteralView::Text(text)) => seq!['"'] + text + seq!['"'],
        Some(LiteralView::Number(numeral)) => numeral,
        Some(LiteralView::Bool(b)) => if b {
            "true"@
        } else {
            "false"@
        },
        None => "nil"@,
    }
}

/// The rendering of an expression. Every node is written as its parts
/// between `( ` and ` )`, the parts separated by one space: the value of a
/// literal; the inner expression of a grouping; the name of the operator
/// and the operand of a prefix operation; the left operand, the name of the
/// operator and the right operand of an infix operation.
pub open spec fn render_view(e: ExprView) -> Seq<char>
    decreases e,
{
    match e {
        ExprView::Binary { left, operator, right } => "( "@ + render_view(*left) + " "@
            + kind_name(operator.kind) + " "@ + render_view(*right) + " )"@,
        ExprView::Grouping { inner } => "( "@ + render_view(*inner) + " )"@,
        ExprView::Literal { value } => "( "@ + render_literal(value) + " )"@,
        ExprView::Unary { operator, operand } => "( "@ + kind_name(operator.kind) + " "@
            + render_view(*operand) + " )"@,
    }
}

/// Appends the rendering of the value of a literal to `text`.
fn write_literal(text: &mut String, value: &Option<LiteralValue>)
    ensures
        final(text)@ == old(text)@ + render_literal(literal_view(*value)),
{
    match value {
        Some(LiteralValue::Text(s)) => {
            text.push('"');
            text.append(s.as_str());
            text.push('"');
            assert(text@ == old(text)@ + (seq!['"'] + s@ + seq!['"']));
        },
        Some(LiteralValue::Number(numeral)) => {
            text.append(numeral.as_str());
        },
        Some(LiteralValue::Bool(b)) => {
            if *b {
                text.append("true");
            } else {
                text.append("false");
            }
        },
        None => {
            text.append("nil");
        },
    }
}

/// The printer of expression trees.
pub struct AstPrinter {}

impl AstPrinter {
    /// The rendering of `expr`. The printer calls itself as deep as the
    /// tree is deep.
    pub fn visit(&self, expr: &Expr) -> (text: String)
        ensures
            text@ == render_view(expr@),
        decreases expr,
    {
        let mut text = String::from_str("( ");
        match expr {
            Expr::Binary(e) => {
                let left = self.visit(&e.left);
                let right = self.visit(&e.right);
                text.append(left.as_str());
                text.append(" ");
                text.append(e.operator.token_type.name());
                text.append(" ");
                text.append(right.as_str());
            },
            Expr::Grouping(e) => {
                let inner = self.visit(&e.expr);
                text.append(inner.as_str());
            },
            Expr::Literal(e) => {
                write_literal(&mut text, &e.value);
            },
            Expr::Unary(e) => {
                let right = self.visit(&e.right);
                text.append(e.operator.token_type.name());
                text.append(" ");
                text.append(right.as_str());
            },
        }
        text.append(" )");
        text
    }
}

impl Expr {
    /// Lets `visitor` render the expression.
    pub fn accept(&self, visitor: &AstPrinter) -> (text: String)
        ensures
            text@ == render_view(self@),
    {
        visitor.visit(self)
    }
}

/// The rendering of `expr`: a string in parentheses for diagnostics.
pub fn render(expr: &Expr) -> (text: String)
    ensures
        text@ == render_view(expr@),
{
    AstPrinter {  }.visit(expr)
}

} // verus!
