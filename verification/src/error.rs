//! The errors that lexing and parsing report.

use crate::text::{decimal, write_decimal};
use crate::token::{kind_name, Token, TokenType, TokenView};
use vstd::prelude::*;

verus! {

/// A character of the source that starts no lexeme.
#[derive(Debug, Clone, Copy, PartialEq, Eq)]
pub struct InvalidCharacterError {
    pub invalid_char: char,
    /// The position of the character in the source, counted in characters
    /// from 0.
    pub column: usize,
    /// The 1-based line of the character.
    pub line: usize,
}

/// Why a source text could not be turned into tokens.
#[derive(Debug, PartialEq, Eq)]
pub enum LexError {
    /// A character that starts no lexeme.
    InvalidCharacter(InvalidCharacterError),
    /// A string literal that is still open at the end of the source; `line`
    /// is the line of its opening quote.
    UnterminatedString { line: usize },
    /// A numeral that cannot be read as a number.
    MalformedNumber { text: String, line: usize },
}

/// What a `LexError` stands for.
pub enum LexErrorView {
    InvalidCharacter { invalid_char: char, column: nat, line: nat },
    UnterminatedString { line: nat },
    MalformedNumber { text: Seq<char>, line: nat },
}

impl View for LexError {
    type V = LexErrorView;

    open spec fn view(&self) -> LexErrorView {
        match self {
            LexError::InvalidCharacter(e) => LexErrorView::InvalidCharacter {
                invalid_char: e.invalid_char,
                column: e.column as nat,
                line: e.line as nat,
            },
            LexError::UnterminatedString { line } => LexErrorView::UnterminatedString {
                line: *line as nat,
            },
            LexError::MalformedNumber { text, line } => LexErrorView::MalformedNumber {
                text: text@,
                line: *line as nat,
            },
        }
    }
}

/// Why a sequence of tokens could not be turned into an expression.
#[derive(Debug, PartialEq, Eq)]
pub enum ParseError {
    /// A token that starts no primary expression where one must stand:
    /// `found` is the token, `expected_kinds` the kinds that could have
    /// stood there, `line` the line of `found`.
    UnexpectedToken { found: Token, expected_kinds: Vec<TokenType>, line: usize },
    /// A `(` whose expression is not followed by `)`; `line` is the line of
    /// the `(`.
    UnclosedGrouping { line: usize },
    /// The tokens ended where an expression must stand.
    UnexpectedEnd,
    /// A `(` or a prefix operator inside more groupings and prefix
    /// operations than the parser follows; `line` is the line of that token.
    NestingTooDeep { line: usize },
}

/// What a `ParseError` stands for.
pub enum ParseErrorView {
    UnexpectedToken { found: TokenView, expected_kinds: Seq<TokenType>, line: nat },
    UnclosedGrouping { line: nat },
    UnexpectedEnd,
    NestingTooDeep { line: nat },
}

impl View for ParseError {
    type V = ParseErrorView;

    open spec fn view(&self) -> ParseErrorView {
        match self {
            ParseError::UnexpectedToken { found, expected_kinds, line } => {
                ParseErrorView::UnexpectedToken {
                    found: found@,
                    expected_kinds: expected_kinds@,
                    line: *line as nat,
                }
            },
            ParseError::UnclosedGrouping { line } => ParseErrorView::UnclosedGrouping {
                line: *line as nat,
            },
            ParseError::UnexpectedEnd => ParseErrorView::UnexpectedEnd,
            ParseError::NestingTooDeep { line } => ParseErrorView::NestingTooDeep {
                line: *line as nat,
            },
        }
    }
}

/// The message of a lexical error.
pub open spec fn lex_error_message(e: LexErrorView) -> Seq<char> {
    match e {
        LexErrorView::InvalidCharacter { invalid_char, column, line } =>
            "invalid character detected: "@.push(invalid_char) + " at line "@ + decimal(line)
                + ", column "@ + decimal(column),
        LexErrorView::UnterminatedString { line } => "unterminated string starting at line "@
            + decimal(line),
        LexErrorView::MalformedNumber { text, line } => "malformed number "@ + text + " at line "@
            + decimal(line),
    }
}

/// The names of `kinds`, separated by a comma and a space.
pub open spec fn kind_names(kinds: Seq<TokenType>) -> Seq<char>
    decreases kinds.len(),
{
    if kinds.len() == 0 {
        Seq::empty()
    } else if kinds.len() == 1 {
        kind_name(kinds[0])
    } else {
        kind_names(kinds.drop_last()) + ", "@ + kind_name(kinds.last())
    }
}

/// The message of a parse error.
pub open spec fn parse_error_message(e: ParseErrorView) -> Seq<char> {
    match e {
        ParseErrorView::UnexpectedToken { found, expected_kinds, line } => "unexpected token "@
            + kind_name(found.kind) + " at line "@ + decimal(line) + ", expected one of: "@
            + kind_names(expected_kinds),
        ParseErrorView::UnclosedGrouping { line } => "unclosed grouping starting at line "@
            + decimal(line),
        ParseErrorView::UnexpectedEnd => "unexpected end of input"@,
        ParseErrorView::NestingTooDeep { line } => "expression nested too deep at line "@
            + decimal(line),
    }
}

impl InvalidCharacterError {
    /// The message of the error.
    pub fn to_string(&self) -> (text: String)
        ensures
            text@ == lex_error_message(
                LexErrorView::InvalidCharacter {
                    invalid_char: self.invalid_char,
                    column: self.column as nat,
                    line: self.line as nat,
                },
            ),
    {
        let mut text = String::from_str("invalid character detected: ");
        text.push(self.invalid_char);
        text.append(" at line ");
        write_decimal(&mut text, self.line);
        text.append(", column ");
        write_decimal(&mut text, self.column);
        text
    }
}

impl LexError {
    /// The message of the error.
    pub fn to_string(&self) -> (text: String)
        ensures
            text@ == lex_error_message(self@),
    {
        match self {
            LexError::InvalidCharacter(e) => e.to_string(),
            LexError::UnterminatedString { line } => {
                let mut text = String::from_str("unterminated string starting at line ");
                write_decimal(&mut text, *line);
                text
            },
            LexError::MalformedNumber { text: numeral, line } => {
                let mut text = String::from_str("malformed number ");
                text.append(numeral.as_str());
                text.append(" at line ");
                write_decimal(&mut text, *line);
                text
            },
        }
    }
}

/// Appends the names of `kinds`, separated by a comma and a space, to
/// `text`.
fn write_kind_names(text: &mut String, kinds: &Vec<TokenType>)
    ensures
        final(text)@ == old(text)@ + kind_names(kinds@),
{
    let mut i: usize = 0;
    while i < kinds.len()
        invariant
            i <= kinds.len(),
            text@ == old(text)@ + kind_names(kinds@.take(i as int)),
        decreases kinds.len() - i,
    {
        if i > 0 {
            text.append(", ");
        }
        text.append(kinds[i].name());
        assert(kinds@.take(i + 1).drop_last() == kinds@.take(i as int));
        i += 1;
    }
    assert(kinds@.take(i as int) == kinds@);
}

impl ParseError {
    /// The message of the error.
    pub fn to_string(&self) -> (text: String)
        ensures
            text@ == parse_error_message(self@),
    {
        match self {
            ParseError::UnexpectedToken { found, expected_kinds, line } => {
                let mut text = String::from_str("unexpected token ");
                text.append(found.token_type.name());
                text.append(" at line ");
                write_decimal(&mut text, *line);
                text.append(", expected one of: ");
                write_kind_names(&mut text, expected_kinds);
                text
            },
            ParseError::UnclosedGrouping { line } => {
                let mut text = String::from_str("unclosed grouping starting at line ");
                write_decimal(&mut text, *line);
                text
            },
            ParseError::UnexpectedEnd => String::from_str("unexpected end of input"),
            ParseError::NestingTooDeep { line } => {
                let mut text = String::from_str("expression nested too deep at line ");
                write_decimal(&mut text, *line);
                text
            },
        }
    }
}

} // verus!
