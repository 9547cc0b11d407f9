//! How deep the parentheses of a rendering nest, and that this is the depth
//! of the tree that was rendered.
//!
//! A rendering holds the texts of string literals between double quotes. A
//! parenthesis inside such a text is part of the text and does not count.

use crate::grammar::parse_expression;
use crate::lexeme::{
    digits_end, is_lexical, is_numeral, lemma_run_end, lemma_tokens_are_lexical, tokens_of,
};
use crate::reading::{lemma_expression_faithful, size, written};
use crate::repr::{render_literal, render_view, ExprView};
use crate::token::{kind_name, LiteralView, TokenType, TokenView};
use crate::trait_extensions::is_digit;
use vstd::prelude::*;

verus! {

/// Whether `s` ends inside a quoted text: it holds an odd number of double
/// quotes.
pub open spec fn quoted(s: Seq<char>) -> bool
    decreases s.len(),
{
    if s.len() == 0 {
        false
    } else if s.last() == '"' {
        !quoted(s.drop_last())
    } else {
        quoted(s.drop_last())
    }
}

/// What a character outside a quoted text adds to the number of open
/// parentheses.
pub open spec fn opens(c: char) -> int {
    if c == '(' {
        1
    } else if c == ')' {
        -1
    } else {
        0
    }
}

/// The number of parentheses that `s` opens and does not close, not
/// counting those inside quoted texts.
pub open spec fn balance(s: Seq<char>) -> int
    decreases s.len(),
{
    if s.len() == 0 {
        0
    } else if quoted(s.drop_last()) {
        balance(s.drop_last())
    } else {
        balance(s.drop_last()) + opens(s.last())
    }
}

/// The nesting depth of `s`: the greatest number of parentheses that are
/// open at once.
pub open spec fn nesting(s: Seq<char>) -> int
    decreases s.len(),
{
    if s.len() == 0 {
        0
    } else if nesting(s.drop_last()) >= balance(s) {
        nesting(s.drop_last())
    } else {
        balance(s)
    }
}

/// Whether `s` holds no double quote.
pub open spec fn quote_free(s: Seq<char>) -> bool {
    forall|i: int| 0 <= i < s.len() ==> #[trigger] s[i] != '"'
}

/// Whether `s` holds neither a parenthesis nor a double quote.
pub open spec fn plain(s: Seq<char>) -> bool {
    forall|i: int| 0 <= i < s.len() ==> opens(#[trigger] s[i]) == 0 && s[i] != '"'
}

/// The depth of a tree: the number of nodes on its longest branch.
pub open spec fn depth(e: ExprView) -> nat
    decreases e,
{
    match e {
        ExprView::Binary { left, operator, right } => if depth(*left) >= depth(*right) {
            1 + depth(*left)
        } else {
            1 + depth(*right)
        },
        ExprView::Grouping { inner } => 1 + depth(*inner),
        ExprView::Literal { value } => 1,
        ExprView::Unary { operator, operand } => 1 + depth(*operand),
    }
}

/// Whether the literals of the tree are such as source text can hold: no
/// text holds a double quote, and no numeral holds a parenthesis or a
/// double quote.
pub open spec fn lexical_literals(e: ExprView) -> bool
    decreases e,
{
    match e {
        ExprView::Binary { left, operator, right } => lexical_literals(*left) && lexical_literals(
            *right,
        ),
        ExprView::Grouping { inner } => lexical_literals(*inner),
        ExprView::Literal { value } => match value {
            Some(LiteralView::Text(text)) => quote_free(text),
            Some(LiteralView::Number(numeral)) => plain(numeral),
            _ => true,
        },
        ExprView::Unary { operator, operand } => lexical_literals(*operand),
    }
}

/// Whether `s` is complete, leaves `left` parentheses open and nests
/// `deep`: it does not end inside a quoted text.
pub open spec fn nests(s: Seq<char>, left: int, deep: int) -> bool {
    !quoted(s) && balance(s) == left && nesting(s) == deep
}

/// Two texts joined, where the first does not end inside a quoted text:
/// the balances add up, and the second text nests on top of what the first
/// left open.
pub proof fn lemma_joined(a: Seq<char>, b: Seq<char>)
    requires
        !quoted(a),
    ensures
        quoted(a + b) == quoted(b),
        balance(a + b) == balance(a) + balance(b),
        nesting(a + b) == if nesting(a) >= balance(a) + nesting(b) {
            nesting(a)
        } else {
            balance(a) + nesting(b)
        },
    decreases b.len(),
{
    if b.len() == 0 {
        assert(a + b == a);
    } else {
        lemma_joined(a, b.drop_last());
        assert((a + b).drop_last() == a + b.drop_last());
        assert((a + b).last() == b.last());
    }
}

/// A text without double quotes that follows an open quote is inside the
/// quoted text: it changes neither balance nor nesting depth.
pub proof fn lemma_inside(a: Seq<char>, text: Seq<char>)
    requires
        quoted(a),
        quote_free(text),
    ensures
        quoted(a + text),
        balance(a + text) == balance(a),
        nesting(a + text) == nesting(a),
    decreases text.len(),
{
    if text.len() == 0 {
        assert(a + text == a);
    } else {
        lemma_inside(a, text.drop_last());
        assert((a + text).drop_last() == a + text.drop_last());
        assert((a + text).last() == text[text.len() - 1]);
    }
}

/// A text without parentheses and double quotes leaves nothing open and
/// has nesting depth 0.
pub proof fn lemma_plain(s: Seq<char>)
    requires
        plain(s),
    ensures
        nests(s, 0, 0),
    decreases s.len(),
{
    if s.len() > 0 {
        lemma_plain(s.drop_last());
        assert(opens(s[s.len() - 1]) == 0);
    }
}

/// A text between double quotes leaves nothing open and has nesting depth
/// 0, whatever parentheses it holds.
pub proof fn lemma_quoted_text(text: Seq<char>)
    requires
        quote_free(text),
    ensures
        nests(seq!['"'] + text + seq!['"'], 0, 0),
{
    let quote = seq!['"'];
    assert(quote.drop_last().len() == 0);
    assert(quoted(quote) && balance(quote) == 0 && nesting(quote) == 0) by {
        reveal_with_fuel(quoted, 2);
        reveal_with_fuel(balance, 2);
        reveal_with_fuel(nesting, 2);
    }
    lemma_inside(quote, text);
    let whole = quote + text + quote;
    assert(whole.drop_last() == quote + text);
    assert(whole.last() == '"');
}

/// A numeral holds neither a parenthesis nor a double quote.
pub proof fn lemma_numeral_plain(numeral: Seq<char>)
    requires
        is_numeral(numeral),
    ensures
        plain(numeral),
{
    let digit = |c: char| is_digit(c);
    let whole = digits_end(numeral, 0);
    lemma_run_end(numeral, 0, digit);
    if whole < numeral.len() {
        lemma_run_end(numeral, whole + 1, digit);
    }
    assert forall|i: int| 0 <= i < numeral.len() implies opens(#[trigger] numeral[i]) == 0
        && numeral[i] != '"' by {
        if i < whole {
            assert(digit(numeral[i]));
        } else if i > whole {
            assert(digit(numeral[i]));
        }
    }
}

/// The name of a kind of token holds neither a parenthesis nor a double
/// quote.
pub proof fn lemma_kind_name_plain(kind: TokenType)
    ensures
        plain(kind_name(kind)),
{
    reveal_strlit("LeftParen");
    reveal_strlit("RightParen");
    reveal_strlit("LeftBrace");
    reveal_strlit("RightBrace");
    reveal_strlit("LeftBracket");
    reveal_strlit("RightBracket");
    reveal_strlit("Comma");
    reveal_strlit("Dot");
    reveal_strlit("SemiColon");
    reveal_strlit("Colon");
    reveal_strlit("Plus");
    reveal_strlit("PlusEqual");
    reveal_strlit("Minus");
    reveal_strlit("MinusEqual");
    reveal_strlit("Equal");
    reveal_strlit("EqualEqual");
    reveal_strlit("Star");
    reveal_strlit("StarEqual");
    reveal_strlit("Slash");
    reveal_strlit("SlashEqual");
    reveal_strlit("Bang");
    reveal_strlit("BangEqual");
    reveal_strlit("Less");
    reveal_strlit("LessEqual");
    reveal_strlit("Greater");
    reveal_strlit("GreaterEqual");
    reveal_strlit("Identifier");
    reveal_strlit("String");
    reveal_strlit("Number");
    reveal_strlit("And");
    reveal_strlit("Class");
    reveal_strlit("Else");
    reveal_strlit("False");
    reveal_strlit("Fun");
    reveal_strlit("For");
    reveal_strlit("If");
    reveal_strlit("Nil");
    reveal_strlit("Or");
    reveal_strlit("Print");
    reveal_strlit("Return");
    reveal_strlit("Super");
    reveal_strlit("This");
    reveal_strlit("True");
    reveal_strlit("Var");
    reveal_strlit("While");
    reveal_strlit("Eof");
}

/// The rendering of a literal that source text can hold leaves nothing
/// open and has nesting depth 0.
pub proof fn lemma_literal_nests(value: Option<LiteralView>)
    requires
        lexical_literals(ExprView::Literal { value }),
    ensures
        nests(render_literal(value), 0, 0),
{
    match value {
        Some(LiteralView::Text(text)) => {
            lemma_quoted_text(text);
        },
        Some(LiteralView::Number(numeral)) => {
            lemma_plain(numeral);
        },
        Some(LiteralView::Bool(b)) => {
            reveal_strlit("true");
            reveal_strlit("false");
            lemma_plain(render_literal(value));
        },
        None => {
            reveal_strlit("nil");
            lemma_plain(render_literal(value));
        },
    }
}

/// The three fixed parts of a rendering: what opens a node, what
/// separates its parts and what closes it.
pub proof fn lemma_brackets()
    ensures
        nests("( "@, 1, 1),
        nests(" "@, 0, 0),
        nests(" )"@, -1, 0),
{
    reveal_strlit("( ");
    reveal_strlit(" ");
    reveal_strlit(" )");
    reveal_with_fuel(quoted, 3);
    reveal_with_fuel(balance, 3);
    reveal_with_fuel(nesting, 3);
    assert("( "@.drop_last().drop_last().len() == 0);
    assert(" )"@.drop_last().drop_last().len() == 0);
    assert(" "@.drop_last().len() == 0);
}

/// The parentheses of a rendering nest as deep as the tree is deep, and
/// each is closed: for every tree whose literals are such as source text
/// can hold, the nesting depth of the rendering is the depth of the tree,
/// and the rendering leaves no parenthesis and no quoted text open.
pub proof fn lemma_render_nesting(e: ExprView)
    requires
        lexical_literals(e),
    ensures
        nests(render_view(e), 0, depth(e) as int),
    decreases e,
{
    lemma_brackets();
    let open = "( "@;
    let gap = " "@;
    let close = " )"@;
    match e {
        ExprView::Binary { left, operator, right } => {
            let l = render_view(*left);
            let name = kind_name(operator.kind);
            let r = render_view(*right);
            lemma_render_nesting(*left);
            lemma_render_nesting(*right);
            lemma_kind_name_plain(operator.kind);
            lemma_plain(name);
            lemma_joined(open, l);
            lemma_joined(open + l, gap);
            lemma_joined(open + l + gap, name);
            lemma_joined(open + l + gap + name, gap);
            lemma_joined(open + l + gap + name + gap, r);
            lemma_joined(open + l + gap + name + gap + r, close);
        },
        ExprView::Grouping { inner } => {
            let i = render_view(*inner);
            lemma_render_nesting(*inner);
            lemma_joined(open, i);
            lemma_joined(open + i, close);
        },
        ExprView::Literal { value } => {
            let v = render_literal(value);
            lemma_literal_nests(value);
            lemma_joined(open, v);
            lemma_joined(open + v, close);
        },
        ExprView::Unary { operator, operand } => {
            let name = kind_name(operator.kind);
            let o = render_view(*operand);
            lemma_render_nesting(*operand);
            lemma_kind_name_plain(operator.kind);
            lemma_plain(name);
            lemma_joined(open, name);
            lemma_joined(open + name, gap);
            lemma_joined(open + name + gap, o);
            lemma_joined(open + name + gap + o, close);
        },
    }
}

/// The literals of a tree that is written by tokens of the shapes that
/// scanning gives are such as source text can hold.
pub proof fn lemma_written_literals(e: ExprView, tokens: Seq<TokenView>, from: int)
    requires
        written(e, tokens, from),
        forall|i: int| 0 <= i < tokens.len() ==> is_lexical(#[trigger] tokens[i]),
    ensures
        lexical_literals(e),
    decreases e,
{
    match e {
        ExprView::Binary { left, operator, right } => {
            lemma_written_literals(*left, tokens, from);
            lemma_written_literals(*right, tokens, from + size(*left) + 1);
        },
        ExprView::Grouping { inner } => {
            lemma_written_literals(*inner, tokens, from + 1);
        },
        ExprView::Literal { value } => {
            assert(is_lexical(tokens[from]));
            match value {
                Some(LiteralView::Number(numeral)) => {
                    lemma_numeral_plain(numeral);
                },
                _ => {},
            }
        },
        ExprView::Unary { operator, operand } => {
            lemma_written_literals(*operand, tokens, from + 1);
        },
    }
}

/// Whatever source text is scanned and parsed, the rendering of the tree
/// nests as deep as the tree is deep and leaves nothing open.
pub proof fn lemma_source_render_nesting(source: Seq<char>)
    requires
        tokens_of(source) is Ok,
        parse_expression(tokens_of(source)->Ok_0, 0) is Ok,
    ensures
        ({
            let tree = parse_expression(tokens_of(source)->Ok_0, 0)->Ok_0.expr;
            nests(render_view(tree), 0, depth(tree) as int)
        }),
{
    let tokens = tokens_of(source)->Ok_0;
    let tree = parse_expression(tokens, 0)->Ok_0.expr;
    lemma_tokens_are_lexical(source, 0);
    lemma_expression_faithful(tokens, 0);
    lemma_written_literals(tree, tokens, 0);
    lemma_render_nesting(tree);
}

} // verus!
