//! The scanner: a lexer that walks the characters of the source by index.

use crate::error::{InvalidCharacterError, LexError};
use crate::lexeme::{
    digits_end, has_char, lemma_run_end_unique, line_at, number_end, prepend, tokens_from,
    word_end,
};
use crate::lexer::{lemma_scanned_all, lemma_scanned_step, pushed, scanned};
use crate::text::to_chars;
use crate::token::{
    keyword_kind, literal_view, token_views, word_kind, LiteralValue, LiteralView, Token,
    TokenType, TokenView,
};
use crate::trait_extensions::{is_digit, is_identifier_char, IdentifierChar};
use vstd::prelude::*;

verus! {

/// A lexer over a source text that it addresses by character position.
#[derive(Debug)]
pub struct Scanner<'a> {
    /// The source text.
    pub source: &'a str,
    /// The tokens scanned so far.
    pub tokens: Vec<Token>,
    /// The line of the next character.
    pub line: usize,
    /// The position of the next character.
    pub current: usize,
    /// Where the lexeme that is being scanned began.
    pub start: usize,
    /// The characters of the source text.
    pub chars: Vec<char>,
}

impl<'a> Scanner<'a> {
    /// The scanner stands inside its source, and `line` is the line of
    /// its position.
    pub open spec fn wf(&self) -> bool {
        &&& self.chars@ == self.source@
        &&& self.current <= self.chars@.len() <= usize::MAX
        &&& self.line == line_at(self.source@, self.current as int)
    }

    /// A scanner at the start of `source`.
    #[must_use]
    pub fn new(source: &'a str) -> (scanner: Scanner<'a>)
        ensures
            scanner.wf(),
            scanner.source@ == source@,
            scanner.tokens@ == Seq::<Token>::empty(),
            scanner.line == 1,
            scanner.current == 0,
            scanner.start == 0,
    {
        let chars = to_chars(source);
        let _n: usize = chars.len();
        Scanner { source, tokens: Vec::new(), line: 1, current: 0, start: 0, chars }
    }

    /// The character `offset` positions after the next one, if the source
    /// reaches that far.
    fn lookahead(&self, offset: usize) -> (c: Option<char>)
        requires
            self.wf(),
        ensures
            c == if self.current + offset < self.source@.len() {
                Some(self.source@[self.current + offset])
            } else {
                None
            },
    {
        if offset < self.chars.len() - self.current {
            Some(self.chars[self.current + offset])
        } else {
            None
        }
    }

    /// Whether every character has been read.
    fn is_at_end(&self) -> (at_end: bool)
        requires
            self.wf(),
        ensures
            at_end == (self.current == self.source@.len()),
    {
        self.current >= self.chars.len()
    }

    /// Reads the next character, if there is one, and counts its line.
    fn advance(&mut self) -> (c: Option<char>)
        requires
            old(self).wf(),
        ensures
            final(self).wf(),
            final(self).source == old(self).source,
            final(self).tokens == old(self).tokens,
            final(self).start == old(self).start,
            old(self).current < old(self).source@.len() ==> c == Some(
                old(self).source@[old(self).current as int],
            ) && final(self).current == old(self).current + 1,
            old(self).current >= old(self).source@.len() ==> c.is_none() && final(self).current
                == old(self).current,
    {
        match self.lookahead(0) {
            Some(c) => {
                self.current += 1;
                if c == '\n' && self.line < usize::MAX {
                    self.line += 1;
                }
                Some(c)
            },
            None => None,
        }
    }

    /// The text of the source from position `from` up to position `to`.
    fn lexeme(&self, from: usize, to: usize) -> (text: String)
        requires
            self.wf(),
            from <= to <= self.source@.len(),
        ensures
            text@ == self.source@.subrange(from as int, to as int),
    {
        let mut text = String::new();
        let mut i: usize = from;
        while i < to
            invariant
                self.chars@ == self.source@,
                from <= i <= to <= self.source@.len(),
                text@ == self.source@.subrange(from as int, i as int),
            decreases to - i,
        {
            text.push(self.chars[i]);
            i += 1;
            assert(self.source@.subrange(from as int, i as int) == self.source@.subrange(
                from as int,
                i - 1,
            ).push(self.source@[i - 1]));
        }
        text
    }

    /// Appends a token of the given kind and literal that starts on `line`.
    fn add_token(&mut self, token_type: TokenType, literal: Option<LiteralValue>, line: usize)
        ensures
            final(self).source == old(self).source,
            final(self).chars == old(self).chars,
            final(self).line == old(self).line,
            final(self).current == old(self).current,
            final(self).start == old(self).start,
            pushed(
                old(self).tokens@,
                final(self).tokens@,
                TokenView { kind: token_type, literal: literal_view(literal), line: line as nat },
            ),
    {
        self.tokens.push(Token { token_type, literal, line });
        assert(self.tokens@.drop_last() == old(self).tokens@);
    }

    /// Reads the next character if it is `expected`, and says whether it
    /// was.
    fn peek_match(&mut self, expected: char) -> (matched: bool)
        requires
            old(self).wf(),
        ensures
            final(self).wf(),
            final(self).source == old(self).source,
            final(self).tokens == old(self).tokens,
            final(self).start == old(self).start,
            matched == has_char(old(self).source@, old(self).current as int, expected),
            final(self).current == if matched {
                old(self).current + 1
            } else {
                old(self).current as int
            },
    {
        if self.is_at_end() || self.lookahead(0).unwrap_or_default() != expected {
            false
        } else {
            let _ = self.advance();
            true
        }
    }

    /// Moves to the end of the run of digits that starts at the next
    /// character.
    fn skip_digits(&mut self)
        requires
            old(self).wf(),
        ensures
            final(self).wf(),
            final(self).source == old(self).source,
            final(self).tokens == old(self).tokens,
            final(self).start == old(self).start,
            final(self).line == old(self).line,
            old(self).current <= final(self).current,
            final(self).current == digits_end(old(self).source@, old(self).current as int),
    {
        let ghost s = self.source@;
        let ghost from = self.current as int;
        while self.current < self.chars.len() && self.chars[self.current].is_decimal_digit()
            invariant
                self.wf(),
                self.source == old(self).source,
                self.source@ == s,
                self.tokens == old(self).tokens,
                self.start == old(self).start,
                self.line == old(self).line,
                from == old(self).current,
                from <= self.current,
                forall|i: int| from <= i < self.current ==> is_digit(#[trigger] s[i]),
            decreases s.len() - self.current,
        {
            self.current += 1;
        }
        proof {
            lemma_run_end_unique(s, from, |c: char| is_digit(c), self.current as int);
        }
    }

    /// Scans a string literal whose opening quote has been read, up to and
    /// with its closing quote.
    fn scan_string(&mut self) -> (r: Result<(), LexError>)
        requires
            old(self).wf(),
            old(self).current == old(self).start + 1,
            old(self).source@[old(self).start as int] == '"',
        ensures
            final(self).wf(),
            final(self).source == old(self).source,
            final(self).start == old(self).start,
            scanned(
                old(self).source@,
                old(self).start as int,
                old(self).tokens@,
                final(self).tokens@,
                final(self).current as int,
                r,
            ),
    {
        let ghost s = self.source@;
        let ghost from = self.current as int;
        let line = self.line;
        loop
            invariant
                self.wf(),
                self.source == old(self).source,
                self.source@ == s,
                self.tokens == old(self).tokens,
                self.start == old(self).start,
                from == old(self).current,
                from == self.start + 1,
                s[self.start as int] == '"',
                from <= self.current,
                line == line_at(s, old(self).start as int),
                forall|i: int| from <= i < self.current ==> #[trigger] s[i] != '"',
            ensures
                self.current < s.len(),
                s[self.current as int] == '"',
            decreases s.len() - self.current,
        {
            match self.lookahead(0) {
                None => {
                    proof {
                        lemma_run_end_unique(s, from, |c: char| c != '"', self.current as int);
                    }
                    return Err(LexError::UnterminatedString { line });
                },
                Some(c) => {
                    if c == '"' {
                        break ;
                    }
                    let _ = self.advance();
                },
            }
        }
        proof {
            lemma_run_end_unique(s, from, |c: char| c != '"', self.current as int);
        }
        let value = self.lexeme(self.start + 1, self.current);
        let _ = self.advance();
        self.add_token(TokenType::String, Some(LiteralValue::Text(value)), line);
        Ok(())
    }

    /// Scans a numeral whose first digit has been read.
    fn scan_number(&mut self)
        requires
            old(self).wf(),
            old(self).current == old(self).start + 1,
            is_digit(old(self).source@[old(self).start as int]),
        ensures
            final(self).wf(),
            final(self).source == old(self).source,
            final(self).start == old(self).start,
            final(self).current == number_end(old(self).source@, old(self).start as int),
            pushed(
                old(self).tokens@,
                final(self).tokens@,
                TokenView {
                    kind: TokenType::Number,
                    literal: Some(
                        LiteralView::Number(
                            old(self).source@.subrange(
                                old(self).start as int,
                                number_end(old(self).source@, old(self).start as int),
                            ),
                        ),
                    ),
                    line: line_at(old(self).source@, old(self).start as int),
                },
            ),
    {
        let line = self.line;
        self.skip_digits();
        if let Some(next_char) = self.lookahead(0) {
            if next_char == '.' {
                if let Some(next_next_char) = self.lookahead(1) {
                    if next_next_char.is_decimal_digit() {
                        self.current += 1;
                        self.skip_digits();
                    }
                }
            }
        }
        let value = self.lexeme(self.start, self.current);
        self.add_token(TokenType::Number, Some(LiteralValue::Number(value)), line);
    }

    /// Scans a word whose first character has been read: a reserved word
    /// or an identifier.
    fn scan_identifier(&mut self)
        requires
            old(self).wf(),
            old(self).current == old(self).start + 1,
            old(self).source@[old(self).start as int] != '\n',
        ensures
            final(self).wf(),
            final(self).source == old(self).source,
            final(self).start == old(self).start,
            final(self).current == word_end(old(self).source@, old(self).current as int),
            pushed(
                old(self).tokens@,
                final(self).tokens@,
                TokenView {
                    kind: word_kind(
                        old(self).source@.subrange(
                            old(self).start as int,
                            word_end(old(self).source@, old(self).current as int),
                        ),
                    ),
                    literal: Some(
                        LiteralView::Text(
                            old(self).source@.subrange(
                                old(self).start as int,
                                word_end(old(self).source@, old(self).current as int),
                            ),
                        ),
                    ),
                    line: line_at(old(self).source@, old(self).start as int),
                },
            ),
    {
        let ghost s = self.source@;
        let ghost from = self.current as int;
        let line = self.line;
        loop
            invariant
                self.wf(),
                self.source == old(self).source,
                self.source@ == s,
                self.tokens == old(self).tokens,
                self.start == old(self).start,
                self.line == line,
                from == old(self).current,
                from <= self.current,
                forall|i: int| from <= i < self.current ==> is_identifier_char(#[trigger] s[i]),
            ensures
                self.current < s.len() ==> !is_identifier_char(s[self.current as int]),
            decreases s.len() - self.current,
        {
            match self.lookahead(0) {
                Some(next_char) if next_char.is_ascii_identifier_char() => {
                    let _ = self.advance();
                },
                _ => {
                    break ;
                },
            }
        }
        proof {
            lemma_run_end_unique(s, from, |c: char| is_identifier_char(c), self.current as int);
        }
        let text = self.lexeme(self.start, self.current);
        let token_type = match keyword_kind(text.as_str()) {
            Some(kind) => kind,
            None => TokenType::Identifier,
        };
        self.add_token(token_type, Some(LiteralValue::Text(text)), line);
    }

    /// Scans the lexeme that starts at the next character.
    fn scan_token(&mut self) -> (r: Result<(), LexError>)
        requires
            old(self).wf(),
            old(self).current < old(self).source@.len(),
            old(self).start == old(self).current,
        ensures
            final(self).wf(),
            final(self).source == old(self).source,
            final(self).start == old(self).start,
            scanned(
                old(self).source@,
                old(self).current as int,
                old(self).tokens@,
                final(self).tokens@,
                final(self).current as int,
                r,
            ),
    {
        let line = self.line;
        if let Some(c) = self.advance() {
            match c {
                '(' => self.add_token(TokenType::LeftParen, None, line),
                ')' => self.add_token(TokenType::RightParen, None, line),
                '{' => self.add_token(TokenType::LeftBrace, None, line),
                '}' => self.add_token(TokenType::RightBrace, None, line),
                ',' => self.add_token(TokenType::Comma, None, line),
                '.' => self.add_token(TokenType::Dot, None, line),
                ';' => self.add_token(TokenType::SemiColon, None, line),
                '*' => {
                    let token_type = if self.peek_match('=') {
                        TokenType::StarEqual
                    } else {
                        TokenType::Star
                    };
                    self.add_token(token_type, None, line);
                },
                '+' => {
                    let token_type = if self.peek_match('=') {
                        TokenType::PlusEqual
                    } else {
                        TokenType::Plus
                    };
                    self.add_token(token_type, None, line);
                },
                '!' => {
                    let token_type = if self.peek_match('=') {
                        TokenType::BangEqual
                    } else {
                        TokenType::Bang
                    };
                    self.add_token(token_type, None, line);
                },
                '=' => {
                    let token_type = if self.peek_match('=') {
                        TokenType::EqualEqual
                    } else {
                        TokenType::Equal
                    };
                    self.add_token(token_type, None, line);
                },
                '-' => {
                    let token_type = if self.peek_match('=') {
                        TokenType::MinusEqual
                    } else {
                        TokenType::Minus
                    };
                    self.add_token(token_type, None, line);
                },
                '<' => {
                    let token_type = if self.peek_match('=') {
                        TokenType::LessEqual
                    } else {
                        TokenType::Less
                    };
                    self.add_token(token_type, None, line);
                },
                '>' => {
                    let token_type = if self.peek_match('=') {
                        TokenType::GreaterEqual
                    } else {
                        TokenType::Greater
                    };
                    self.add_token(token_type, None, line);
                },
                '/' => {
                    if self.peek_match('/') {
                        let ghost s = self.source@;
                        let ghost from = self.current as int;
                        while self.current < self.chars.len() && self.chars[self.current] != '\n'
                            invariant
                                self.wf(),
                                self.source == old(self).source,
                                self.source@ == s,
                                self.tokens == old(self).tokens,
                                self.start == old(self).start,
                                from == old(self).current + 2,
                                from <= self.current,
                                forall|i: int| from <= i < self.current ==> #[trigger] s[i] != '\n',
                            decreases s.len() - self.current,
                        {
                            self.current += 1;
                        }
                        proof {
                            lemma_run_end_unique(
                                s,
                                from,
                                |c: char| c != '\n',
                                self.current as int,
                            );
                        }
                    } else {
                        let token_type = if self.peek_match('=') {
                            TokenType::SlashEqual
                        } else {
                            TokenType::Slash
                        };
                        self.add_token(token_type, None, line);
                    }
                },
                ' ' | '\r' | '\t' | '\n' => {},
                '"' => {
                    return self.scan_string();
                },
                _ => {
                    if c.is_decimal_digit() {
                        self.scan_number();
                    } else if c.is_ascii_identifier_start() {
                        self.scan_identifier();
                    } else {
                        return Err(
                            LexError::InvalidCharacter(
                                InvalidCharacterError { invalid_char: c, column: self.start, line },
                            ),
                        );
                    }
                },
            }
        }
        Ok(())
    }

    /// Scans the rest of the source and appends its tokens, the
    /// end-of-input token last, to those scanned before. The result is the
    /// whole list. At the first lexical error the list is put back as it
    /// was and the error is returned.
    pub fn scan_tokens(&mut self) -> (r: Result<&[Token], LexError>)
        requires
            old(self).wf(),
        ensures
            final(self).wf(),
            final(self).source == old(self).source,
            match tokens_from(old(self).source@, old(self).current as int) {
                Ok(tokens) => {
                    &&& r is Ok
                    &&& r->Ok_0@ == final(self).tokens@
                    &&& final(self).tokens@.take(old(self).tokens@.len() as int) == old(
                        self,
                    ).tokens@
                    &&& token_views(final(self).tokens@) == token_views(old(self).tokens@) + tokens
                    &&& final(self).current == old(self).source@.len()
                },
                Err(e) => {
                    &&& r is Err
                    &&& r->Err_0@ == e
                    &&& final(self).tokens@ == old(self).tokens@
                },
            },
    {
        let ghost s = self.source@;
        let ghost from = self.current as int;
        let kept = self.tokens.len();
        while !self.is_at_end()
            invariant
                self.wf(),
                self.source == old(self).source,
                self.source@ == s,
                from == old(self).current,
                kept == old(self).tokens@.len(),
                kept <= self.tokens@.len(),
                self.tokens@.take(kept as int) == old(self).tokens@,
                tokens_from(s, from) == prepend(
                    token_views(self.tokens@.skip(kept as int)),
                    tokens_from(s, self.current as int),
                ),
            decreases s.len() - self.current,
        {
            self.start = self.current;
            let ghost before = self.tokens@;
            let ghost pos = self.current as int;
            if let Err(e) = self.scan_token() {
                self.tokens.truncate(kept);
                assert(self.tokens@ == old(self).tokens@);
                return Err(e);
            }
            proof {
                lemma_scanned_step(
                    s,
                    from,
                    kept as int,
                    pos,
                    before,
                    self.tokens@,
                    self.current as int,
                );
            }
        }
        let line = self.line;
        let ghost scanned = self.tokens@;
        self.add_token(TokenType::Eof, None, line);
        proof {
            lemma_scanned_all(s, kept as int, scanned, self.tokens@);
        }
        Ok(self.tokens.as_slice())
    }
}

} // verus!
