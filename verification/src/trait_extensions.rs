//! Character classes of the lexical grammar.

use vstd::prelude::*;

verus! {

/// Whether `c` is one of the ASCII digits `0` to `9`.
pub open spec fn is_digit(c: char) -> bool {
    '0' <= c && c <= '9'
}

/// Whether `c` is an ASCII letter.
pub open spec fn is_alpha(c: char) -> bool {
    ('a' <= c && c <= 'z') || ('A' <= c && c <= 'Z')
}

/// Whether `c` may start an identifier: an ASCII letter or `_`.
pub open spec fn is_identifier_start(c: char) -> bool {
    is_alpha(c) || c == '_'
}

/// Whether `c` may continue an identifier: an ASCII letter, an ASCII digit or `_`.
pub open spec fn is_identifier_char(c: char) -> bool {
    is_alpha(c) || is_digit(c) || c == '_'
}

/// The character classes that the lexer asks of a character.
pub trait IdentifierChar {
    /// The character as the lexical grammar sees it.
    spec fn as_char(&self) -> char;

    /// Whether the character may stand inside an identifier.
    fn is_ascii_identifier_char(&self) -> (b: bool)
        ensures
            b == is_identifier_char(self.as_char()),
    ;

    /// Whether the character may start an identifier.
    fn is_ascii_identifier_start(&self) -> (b: bool)
        ensures
            b == is_identifier_start(self.as_char()),
    ;

    /// Whether the character is a decimal digit.
    fn is_decimal_digit(&self) -> (b: bool)
        ensures
            b == is_digit(self.as_char()),
    ;
}

impl IdentifierChar for char {
    open spec fn as_char(&self) -> char {
        *self
    }

    fn is_ascii_identifier_char(&self) -> (b: bool) {
        let c: char = *self;
        ('a' <= c && c <= 'z') || ('A' <= c && c <= 'Z') || ('0' <= c && c <= '9') || c == '_'
    }

    fn is_ascii_identifier_start(&self) -> (b: bool) {
        let c: char = *self;
        ('a' <= c && c <= 'z') || ('A' <= c && c <= 'Z') || c == '_'
    }

    fn is_decimal_digit(&self) -> (b: bool) {
        let c: char = *self;
        '0' <= c && c <= '9'
    }
}

} // verus!
