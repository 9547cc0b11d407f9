//! The lexical grammar, as mathematical functions on a sequence of
//! characters. The lexers are proved against these.

use crate::error::LexErrorView;
use crate::token::{word_kind, LiteralView, TokenType, TokenView};
use crate::trait_extensions::{is_digit, is_identifier_char, is_identifier_start};
use vstd::prelude::*;

verus! {

/// The end of the longest run of characters of `class` that starts at `from`.
pub open spec fn run_end(s: Seq<char>, from: int, class: spec_fn(char) -> bool) -> int
    decreases s.len() - from,
{
    if 0 <= from < s.len() && class(s[from]) {
        run_end(s, from + 1, class)
    } else {
        from
    }
}

/// The number of line feeds among the first `pos` characters of `s`.
pub open spec fn newlines_before(s: Seq<char>, pos: int) -> nat
    decreases pos,
{
    if pos <= 0 {
        0
    } else {
        newlines_before(s, pos - 1) + if s[pos - 1] == '\n' {
            1nat
        } else {
            0nat
        }
    }
}

/// The 1-based line of position `pos`: one more than the number of line
/// feeds before it. The count stops at `usize::MAX`.
pub open spec fn line_at(s: Seq<char>, pos: int) -> nat {
    let line = 1 + newlines_before(s, pos);
    if line <= usize::MAX {
        line
    } else {
        usize::MAX as nat
    }
}

/// No more line feeds stand before a position than characters.
pub proof fn lemma_newlines_within(s: Seq<char>, pos: int)
    requires
        0 <= pos,
    ensures
        newlines_before(s, pos) <= pos,
    decreases pos,
{
    if pos > 0 {
        lemma_newlines_within(s, pos - 1);
    }
}

/// The count of lines stops short of no line of a source that has fewer
/// than `usize::MAX` characters: there the line of a position is exactly
/// one more than the number of line feeds before it.
pub proof fn lemma_line_is_exact(s: Seq<char>, pos: int)
    requires
        0 <= pos <= s.len() < usize::MAX,
    ensures
        line_at(s, pos) == 1 + newlines_before(s, pos),
{
    lemma_newlines_within(s, pos);
}

/// Lines do not go back: a later position is on the same line or a later
/// one.
pub proof fn lemma_lines_ascend(s: Seq<char>, earlier: int, later: int)
    requires
        0 <= earlier <= later,
    ensures
        1 <= line_at(s, earlier) <= line_at(s, later),
    decreases later - earlier,
{
    if earlier < later {
        lemma_lines_ascend(s, earlier, later - 1);
    }
}

/// Whether the character at `pos` exists and is `c`.
pub open spec fn has_char(s: Seq<char>, pos: int, c: char) -> bool {
    0 <= pos < s.len() && s[pos] == c
}

/// The kind of a punctuation character, which is a token by itself.
pub open spec fn punctuation(c: char) -> Option<TokenType> {
    if c == '(' {
        Some(TokenType::LeftParen)
    } else if c == ')' {
        Some(TokenType::RightParen)
    } else if c == '{' {
        Some(TokenType::LeftBrace)
    } else if c == '}' {
        Some(TokenType::RightBrace)
    } else if c == ',' {
        Some(TokenType::Comma)
    } else if c == '.' {
        Some(TokenType::Dot)
    } else if c == ';' {
        Some(TokenType::SemiColon)
    } else {
        None
    }
}

/// The two kinds of an operator character: `alone` when it stands by
/// itself, `with_equal` when `=` follows it.
pub struct OperatorKinds {
    pub alone: TokenType,
    pub with_equal: TokenType,
}

/// The kinds of an operator character.
pub open spec fn operator(c: char) -> Option<OperatorKinds> {
    if c == '*' {
        Some(OperatorKinds { alone: TokenType::Star, with_equal: TokenType::StarEqual })
    } else if c == '+' {
        Some(OperatorKinds { alone: TokenType::Plus, with_equal: TokenType::PlusEqual })
    } else if c == '!' {
        Some(OperatorKinds { alone: TokenType::Bang, with_equal: TokenType::BangEqual })
    } else if c == '=' {
        Some(OperatorKinds { alone: TokenType::Equal, with_equal: TokenType::EqualEqual })
    } else if c == '-' {
        Some(OperatorKinds { alone: TokenType::Minus, with_equal: TokenType::MinusEqual })
    } else if c == '<' {
        Some(OperatorKinds { alone: TokenType::Less, with_equal: TokenType::LessEqual })
    } else if c == '>' {
        Some(OperatorKinds { alone: TokenType::Greater, with_equal: TokenType::GreaterEqual })
    } else if c == '/' {
        Some(OperatorKinds { alone: TokenType::Slash, with_equal: TokenType::SlashEqual })
    } else {
        None
    }
}

/// Whether `c` separates lexemes without being one: a space, a carriage
/// return, a tab or a line feed.
pub open spec fn is_blank(c: char) -> bool {
    c == ' ' || c == '\r' || c == '\t' || c == '\n'
}

/// The end of the line comment whose text starts at `from`: the next line
/// feed, or the end of the source.
pub open spec fn comment_end(s: Seq<char>, from: int) -> int {
    run_end(s, from, |c: char| c != '\n')
}

/// The position of the quote that closes the string whose text starts at
/// `from`, or the length of the source where none does. A string has no
/// escape sequences: the first double quote closes it, whatever stands
/// before it.
pub open spec fn string_end(s: Seq<char>, from: int) -> int {
    run_end(s, from, |c: char| c != '"')
}

/// The end of the run of digits that starts at `from`.
pub open spec fn digits_end(s: Seq<char>, from: int) -> int {
    run_end(s, from, |c: char| is_digit(c))
}

/// The end of the word that starts at `from`.
pub open spec fn word_end(s: Seq<char>, from: int) -> int {
    run_end(s, from, |c: char| is_identifier_char(c))
}

/// The end of the numeral that starts at `from`: a run of digits and, where
/// a point and a digit follow it, the point and the run of digits after it.
pub open spec fn number_end(s: Seq<char>, from: int) -> int {
    let whole = digits_end(s, from);
    if has_char(s, whole, '.') && whole + 1 < s.len() && is_digit(s[whole + 1]) {
        digits_end(s, whole + 1)
    } else {
        whole
    }
}

/// What stands at a position of the source.
pub enum Lexeme {
    /// Blank space or a comment, up to `end`: no token.
    Skip { end: int },
    /// A token, whose text ends at `end`.
    Token { kind: TokenType, literal: Option<LiteralView>, end: int },
    /// A character that starts no lexeme.
    Invalid,
    /// A string that no quote closes.
    Unterminated,
}

/// The lexeme that starts at `pos`, a position inside `s`.
pub open spec fn lexeme_at(s: Seq<char>, pos: int) -> Lexeme
    recommends
        0 <= pos < s.len(),
{
    let c = s[pos];
    if punctuation(c) is Some {
        Lexeme::Token { kind: punctuation(c)->0, literal: None, end: pos + 1 }
    } else if c == '/' && has_char(s, pos + 1, '/') {
        Lexeme::Skip { end: comment_end(s, pos + 2) }
    } else if operator(c) is Some {
        if has_char(s, pos + 1, '=') {
            Lexeme::Token { kind: operator(c)->0.with_equal, literal: None, end: pos + 2 }
        } else {
            Lexeme::Token { kind: operator(c)->0.alone, literal: None, end: pos + 1 }
        }
    } else if is_blank(c) {
        Lexeme::Skip { end: pos + 1 }
    } else if c == '"' {
        let close = string_end(s, pos + 1);
        if close < s.len() {
            Lexeme::Token {
                kind: TokenType::String,
                literal: Some(LiteralView::Text(s.subrange(pos + 1, close))),
                end: close + 1,
            }
        } else {
            Lexeme::Unterminated
        }
    } else if is_digit(c) {
        let end = number_end(s, pos);
        Lexeme::Token {
            kind: TokenType::Number,
            literal: Some(LiteralView::Number(s.subrange(pos, end))),
            end,
        }
    } else if is_identifier_start(c) {
        let end = word_end(s, pos + 1);
        let text = s.subrange(pos, end);
        Lexeme::Token { kind: word_kind(text), literal: Some(LiteralView::Text(text)), end }
    } else {
        Lexeme::Invalid
    }
}

/// A run ends at or after its start and inside the source; every character
/// of it is of the class, and the character after it, if any, is not.
pub proof fn lemma_run_end(s: Seq<char>, from: int, class: spec_fn(char) -> bool)
    requires
        0 <= from <= s.len(),
    ensures
        from <= run_end(s, from, class) <= s.len(),
        forall|i: int| from <= i < run_end(s, from, class) ==> class(#[trigger] s[i]),
        run_end(s, from, class) < s.len() ==> !class(s[run_end(s, from, class)]),
    decreases s.len() - from,
{
    if from < s.len() && class(s[from]) {
        lemma_run_end(s, from + 1, class);
    }
}

/// The longest run is the only one: a position `end` at or after `from`
/// with only characters of the class before it and none of the class at
/// it is where the run ends.
pub proof fn lemma_run_end_unique(s: Seq<char>, from: int, class: spec_fn(char) -> bool, end: int)
    requires
        0 <= from <= end <= s.len(),
        forall|i: int| from <= i < end ==> class(#[trigger] s[i]),
        end < s.len() ==> !class(s[end]),
    ensures
        run_end(s, from, class) == end,
    decreases end - from,
{
    if from < end {
        lemma_run_end_unique(s, from + 1, class, end);
    }
}

/// Every lexeme but a failure ends after its first character and inside
/// the source.
pub proof fn lemma_lexeme_advances(s: Seq<char>, pos: int)
    requires
        0 <= pos < s.len(),
    ensures
        match lexeme_at(s, pos) {
            Lexeme::Skip { end } => pos < end <= s.len(),
            Lexeme::Token { end, .. } => pos < end <= s.len(),
            _ => true,
        },
{
    if pos + 2 <= s.len() {
        lemma_run_end(s, pos + 2, |c: char| c != '\n');
    }
    lemma_run_end(s, pos + 1, |c: char| c != '"');
    lemma_run_end(s, pos + 1, |c: char| is_identifier_char(c));
    lemma_run_end(s, pos, |c: char| is_digit(c));
    let whole = digits_end(s, pos);
    if whole + 1 <= s.len() {
        lemma_run_end(s, whole + 1, |c: char| is_digit(c));
    }
}

/// A result with `first` put in front of the tokens.
pub open spec fn prepend(first: Seq<TokenView>, rest: Result<Seq<TokenView>, LexErrorView>)
    -> Result<Seq<TokenView>, LexErrorView> {
    match rest {
        Ok(tokens) => Ok(first + tokens),
        Err(e) => Err(e),
    }
}

/// The end-of-input token of source `s`.
pub open spec fn end_token(s: Seq<char>) -> TokenView {
    TokenView { kind: TokenType::Eof, literal: None, line: line_at(s, s.len() as int) }
}

/// The tokens of `s` from position `pos` on, with the end-of-input token
/// last, or the first lexical error from there on.
pub open spec fn tokens_from(s: Seq<char>, pos: int) -> Result<Seq<TokenView>, LexErrorView>
    decreases s.len() - pos,
{
    if pos < 0 || pos >= s.len() {
        Ok(seq![end_token(s)])
    } else {
        proof {
            lemma_lexeme_advances(s, pos);
        }
        match lexeme_at(s, pos) {
            Lexeme::Skip { end } => tokens_from(s, end),
            Lexeme::Token { kind, literal, end } => prepend(
                seq![TokenView { kind, literal, line: line_at(s, pos) }],
                tokens_from(s, end),
            ),
            Lexeme::Invalid => Err(
                LexErrorView::InvalidCharacter {
                    invalid_char: s[pos],
                    column: pos as nat,
                    line: line_at(s, pos),
                },
            ),
            Lexeme::Unterminated => Err(LexErrorView::UnterminatedString { line: line_at(s, pos) }),
        }
    }
}

/// The tokens of the source text `s`, or its first lexical error.
pub open spec fn tokens_of(s: Seq<char>) -> Result<Seq<TokenView>, LexErrorView> {
    tokens_from(s, 0)
}

/// A source that is one punctuation character has two tokens: the token
/// of that character and the end-of-input token, both on line 1.
pub proof fn lemma_single_punctuation(c: char)
    requires
        punctuation(c) is Some,
    ensures
        tokens_of(seq![c]) == Ok::<Seq<TokenView>, LexErrorView>(
            seq![
                TokenView { kind: punctuation(c)->0, literal: None, line: 1 },
                TokenView { kind: TokenType::Eof, literal: None, line: 1 },
            ],
        ),
{
    let s = seq![c];
    reveal_with_fuel(tokens_from, 2);
    reveal_with_fuel(newlines_before, 2);
    assert(tokens_from(s, 1) == Ok::<Seq<TokenView>, LexErrorView>(seq![end_token(s)]));
    assert(seq![TokenView { kind: punctuation(c)->0, literal: None, line: 1 }] + seq![
        end_token(s),
    ] == seq![
        TokenView { kind: punctuation(c)->0, literal: None, line: 1 },
        TokenView { kind: TokenType::Eof, literal: None, line: 1 },
    ]);
}

/// A source that is one operator character has two tokens: the token of
/// the operator alone and the end-of-input token.
pub proof fn lemma_single_operator(c: char)
    requires
        operator(c) is Some,
    ensures
        tokens_of(seq![c]) == Ok::<Seq<TokenView>, LexErrorView>(
            seq![
                TokenView { kind: operator(c)->0.alone, literal: None, line: 1 },
                TokenView { kind: TokenType::Eof, literal: None, line: 1 },
            ],
        ),
{
    let s = seq![c];
    reveal_with_fuel(tokens_from, 2);
    reveal_with_fuel(newlines_before, 2);
    assert(tokens_from(s, 1) == Ok::<Seq<TokenView>, LexErrorView>(seq![end_token(s)]));
    assert(seq![TokenView { kind: operator(c)->0.alone, literal: None, line: 1 }] + seq![
        end_token(s),
    ] == seq![
        TokenView { kind: operator(c)->0.alone, literal: None, line: 1 },
        TokenView { kind: TokenType::Eof, literal: None, line: 1 },
    ]);
}

/// An operator character followed by `=` is one token, that of the
/// combined operator, and not two.
pub proof fn lemma_operator_with_equal(c: char)
    requires
        operator(c) is Some,
    ensures
        tokens_of(seq![c, '=']) == Ok::<Seq<TokenView>, LexErrorView>(
            seq![
                TokenView { kind: operator(c)->0.with_equal, literal: None, line: 1 },
                TokenView { kind: TokenType::Eof, literal: None, line: 1 },
            ],
        ),
{
    let s = seq![c, '='];
    reveal_with_fuel(tokens_from, 2);
    reveal_with_fuel(newlines_before, 3);
    assert(tokens_from(s, 2) == Ok::<Seq<TokenView>, LexErrorView>(seq![end_token(s)]));
    assert(seq![TokenView { kind: operator(c)->0.with_equal, literal: None, line: 1 }] + seq![
        end_token(s),
    ] == seq![
        TokenView { kind: operator(c)->0.with_equal, literal: None, line: 1 },
        TokenView { kind: TokenType::Eof, literal: None, line: 1 },
    ]);
}

/// Whether `text` is a numeral: one or more digits, or one or more digits,
/// a point and one or more digits.
pub open spec fn is_numeral(text: Seq<char>) -> bool {
    let whole = digits_end(text, 0);
    &&& 0 < whole
    &&& whole == text.len() || (text[whole] == '.' && whole + 1 < text.len() && digits_end(
        text,
        whole + 1,
    ) == text.len())
}

/// Whether `text` is a word: a letter or `_`, then letters, digits and `_`.
pub open spec fn is_word(text: Seq<char>) -> bool {
    &&& 0 < text.len()
    &&& is_identifier_start(text[0])
    &&& forall|i: int| 0 <= i < text.len() ==> is_identifier_char(#[trigger] text[i])
}

/// Whether a token of kind `kind` is written with fixed characters and
/// carries no literal: punctuation, an operator or the end of input.
pub open spec fn is_symbol(kind: TokenType) -> bool {
    ||| kind == TokenType::Eof
    ||| exists|c: char| punctuation(c) == Some(kind)
    ||| exists|c: char| #[trigger]
        operator(c) is Some && (operator(c)->0.alone == kind || operator(c)->0.with_equal == kind)
}

/// Whether `token` is of a shape that scanning gives: a symbol without a
/// literal; a number with a numeral; a string with a text that holds no
/// double quote; or a word with its text, of the kind that the table of
/// reserved words gives it.
pub open spec fn is_lexical(token: TokenView) -> bool {
    match token.literal {
        None => is_symbol(token.kind),
        Some(LiteralView::Number(numeral)) => token.kind == TokenType::Number && is_numeral(
            numeral,
        ),
        Some(LiteralView::Text(text)) => if token.kind == TokenType::String {
            forall|i: int| 0 <= i < text.len() ==> #[trigger] text[i] != '"'
        } else {
            is_word(text) && token.kind == word_kind(text)
        },
        Some(LiteralView::Bool(_)) => false,
    }
}

/// A run inside a part of the source ends where it ends in the source, as
/// long as that is inside the part.
pub proof fn lemma_run_end_in_part(
    s: Seq<char>,
    from: int,
    to: int,
    at: int,
    class: spec_fn(char) -> bool,
)
    requires
        0 <= from <= at <= to <= s.len(),
        run_end(s, at, class) <= to,
        run_end(s, at, class) < to || to == s.len() || !class(s[to]),
    ensures
        run_end(s.subrange(from, to), at - from, class) == run_end(s, at, class) - from,
{
    lemma_run_end(s, at, class);
    let part = s.subrange(from, to);
    let end = run_end(s, at, class) - from;
    assert forall|i: int| at - from <= i < end implies class(#[trigger] part[i]) by {
        assert(part[i] == s[from + i]);
    }
    lemma_run_end_unique(part, at - from, class, end);
}

/// The text of a number token is a numeral.
pub proof fn lemma_number_is_numeral(s: Seq<char>, pos: int)
    requires
        0 <= pos < s.len(),
        is_digit(s[pos]),
    ensures
        is_numeral(s.subrange(pos, number_end(s, pos))),
{
    let digit = |c: char| is_digit(c);
    let whole = digits_end(s, pos);
    let end = number_end(s, pos);
    lemma_run_end(s, pos, digit);
    if end == whole {
        lemma_run_end_in_part(s, pos, end, pos, digit);
    } else {
        lemma_run_end(s, whole + 1, digit);
        assert(!is_digit(s[whole]));
        let text = s.subrange(pos, end);
        assert forall|i: int| 0 <= i < whole - pos implies digit(#[trigger] text[i]) by {
            assert(text[i] == s[pos + i]);
        }
        assert(text[whole - pos] == s[whole]);
        lemma_run_end_unique(text, 0, digit, whole - pos);
        lemma_run_end_in_part(s, pos, end, whole + 1, digit);
    }
}

/// The text of a word token is a word.
pub proof fn lemma_word_is_word(s: Seq<char>, pos: int)
    requires
        0 <= pos < s.len(),
        is_identifier_start(s[pos]),
    ensures
        is_word(s.subrange(pos, word_end(s, pos + 1))),
{
    lemma_run_end(s, pos + 1, |c: char| is_identifier_char(c));
}

/// Every token of a lexeme is of a shape that scanning gives, and is not
/// the end-of-input token.
pub proof fn lemma_lexeme_token_is_lexical(s: Seq<char>, pos: int)
    requires
        0 <= pos < s.len(),
    ensures
        match lexeme_at(s, pos) {
            Lexeme::Token { kind, literal, end } => kind != TokenType::Eof && is_lexical(
                TokenView { kind, literal, line: line_at(s, pos) },
            ),
            _ => true,
        },
{
    let c = s[pos];
    if punctuation(c) is Some {
    } else if c == '/' && has_char(s, pos + 1, '/') {
    } else if operator(c) is Some {
    } else if is_blank(c) {
    } else if c == '"' {
        lemma_run_end(s, pos + 1, |c: char| c != '"');
    } else if is_digit(c) {
        lemma_number_is_numeral(s, pos);
    } else if is_identifier_start(c) {
        lemma_word_is_word(s, pos);
        lemma_word_kind_not_eof(s.subrange(pos, word_end(s, pos + 1)));
    }
}

/// No word is of the kind of the end-of-input token.
pub proof fn lemma_word_kind_not_eof(text: Seq<char>)
    ensures
        word_kind(text) != TokenType::Eof,
{
}

/// The tokens of a source are of the shapes that scanning gives, and the
/// end-of-input token is the last of them and no other.
pub proof fn lemma_tokens_are_lexical(s: Seq<char>, pos: int)
    requires
        0 <= pos,
        tokens_from(s, pos) is Ok,
    ensures
        ({
            let tokens = tokens_from(s, pos)->Ok_0;
            &&& tokens.len() >= 1
            &&& tokens.last() == end_token(s)
            &&& forall|i: int| 0 <= i < tokens.len() ==> is_lexical(#[trigger] tokens[i])
            &&& forall|i: int|
                0 <= i < tokens.len() - 1 ==> (#[trigger] tokens[i]).kind != TokenType::Eof
        }),
    decreases s.len() - pos,
{
    if pos < s.len() {
        lemma_lexeme_advances(s, pos);
        lemma_lexeme_token_is_lexical(s, pos);
        match lexeme_at(s, pos) {
            Lexeme::Skip { end } => {
                lemma_tokens_are_lexical(s, end);
            },
            Lexeme::Token { kind, literal, end } => {
                lemma_tokens_are_lexical(s, end);
            },
            _ => {},
        }
    }
}

/// Scanning never fails on a number: every lexical error is an invalid
/// character, which stands in the source at the reported position and
/// line, or an unterminated string.
pub proof fn lemma_errors_are_located(s: Seq<char>, pos: int)
    requires
        0 <= pos,
        tokens_from(s, pos) is Err,
    ensures
        match tokens_from(s, pos)->Err_0 {
            LexErrorView::InvalidCharacter { invalid_char, column, line } => {
                &&& pos <= column < s.len()
                &&& s[column as int] == invalid_char
                &&& line == line_at(s, column as int)
                &&& lexeme_at(s, column as int) is Invalid
            },
            LexErrorView::UnterminatedString { line } => exists|at: int|
                pos <= at < s.len() && s[at] == '"' && #[trigger] line_at(s, at) == line
                    && string_end(s, at + 1) == s.len(),
            LexErrorView::MalformedNumber { .. } => false,
        },
    decreases s.len() - pos,
{
    if pos < s.len() {
        lemma_lexeme_advances(s, pos);
        match lexeme_at(s, pos) {
            Lexeme::Skip { end } => {
                lemma_errors_are_located(s, end);
            },
            Lexeme::Token { kind, literal, end } => {
                lemma_errors_are_located(s, end);
            },
            Lexeme::Invalid => {},
            Lexeme::Unterminated => {
                lemma_run_end(s, pos + 1, |c: char| c != '"');
                assert(line_at(s, pos) == tokens_from(s, pos)->Err_0->UnterminatedString_line);
            },
        }
    }
}

/// The lines of the tokens of a source do not go back: each token is on
/// the line of the token before it or on a later one, from the line where
/// scanning began up to the line of the end-of-input token.
pub proof fn lemma_token_lines_ascend(s: Seq<char>, pos: int)
    requires
        0 <= pos <= s.len(),
        tokens_from(s, pos) is Ok,
    ensures
        ({
            let tokens = tokens_from(s, pos)->Ok_0;
            &&& forall|i: int|
                0 <= i < tokens.len() ==> line_at(s, pos) <= (#[trigger] tokens[i]).line
                    <= line_at(s, s.len() as int)
            &&& forall|i: int, j: int|
                0 <= i <= j < tokens.len() ==> (#[trigger] tokens[i]).line
                    <= (#[trigger] tokens[j]).line
        }),
    decreases s.len() - pos,
{
    if pos < s.len() {
        lemma_lexeme_advances(s, pos);
        match lexeme_at(s, pos) {
            Lexeme::Skip { end } => {
                lemma_token_lines_ascend(s, end);
                lemma_lines_ascend(s, pos, end);
            },
            Lexeme::Token { kind, literal, end } => {
                lemma_token_lines_ascend(s, end);
                lemma_lines_ascend(s, pos, end);
                lemma_lines_ascend(s, pos, s.len() as int);
            },
            _ => {},
        }
    }
}

} // verus!
