//! The lexer: one pass over a peekable stream of characters.

pub use crate::error::InvalidCharacterError;
use crate::error::{LexError, LexErrorView};
use crate::lexeme::{
    comment_end, digits_end, has_char, lemma_lexeme_advances, lemma_run_end_unique, lexeme_at,
    end_token, line_at, number_end, operator, prepend, string_end, tokens_from, tokens_of,
    word_end, Lexeme,
};
use crate::multipeek::{cursor, next_char, open_stream, peek_char, pending, reset_peek};
use crate::text::note_length_fits;
use crate::token::{
    keyword_kind, literal_view, token_views, word_kind, LiteralValue, LiteralView, Token,
    TokenType, TokenView,
};
use crate::trait_extensions::{is_digit, is_identifier_char, IdentifierChar};
use itertools::MultiPeek;
use std::str::Chars;
use vstd::prelude::*;

verus! {

/// A lexer over the characters of a source text.
pub struct Lexer<'a> {
    /// The characters that are still to be read.
    pub source: MultiPeek<Chars<'a>>,
    /// The tokens scanned so far.
    pub tokens: Vec<Token>,
    /// The line of the next character.
    pub line: usize,
    /// The number of characters read.
    pub current: usize,
    /// Where the lexeme that is being scanned began.
    pub start: usize,
    /// The whole source text.
    pub text: Ghost<Seq<char>>,
}

impl<'a> Lexer<'a> {
    /// The counters agree with the stream: it holds the source from
    /// `current` on, and `line` is the line of that position.
    pub open spec fn synced(&self) -> bool {
        &&& self.text@.len() <= usize::MAX
        &&& self.current <= self.text@.len()
        &&& pending(self.source) == self.text@.skip(self.current as int)
        &&& self.line == line_at(self.text@, self.current as int)
    }

    /// The lexer is between two lexemes: in step with its stream, with
    /// nothing peeked at.
    pub open spec fn wf(&self) -> bool {
        self.synced() && cursor(self.source) == 0
    }

    /// A lexer at the start of `source`.
    #[must_use]
    pub fn new(source: &'a str) -> (lexer: Lexer<'a>)
        ensures
            lexer.wf(),
            lexer.text@ == source@,
            lexer.tokens@ == Seq::<Token>::empty(),
            lexer.line == 1,
            lexer.current == 0,
            lexer.start == 0,
    {
        note_length_fits(source);
        let lexer = Lexer {
            source: open_stream(source.chars()),
            tokens: Vec::new(),
            line: 1,
            current: 0,
            start: 0,
            text: Ghost(source@),
        };
        assert(source@.skip(0) == source@);
        lexer
    }

    /// Scans the rest of the source and appends its tokens, the
    /// end-of-input token last, to those scanned before. The result is the
    /// whole list. At the first lexical error the list is put back as it
    /// was and the error is returned.
    pub fn scan_tokens(&mut self) -> (r: Result<&[Token], LexError>)
        requires
            old(self).wf(),
        ensures
            final(self).wf(),
            final(self).text == old(self).text,
            match tokens_from(old(self).text@, old(self).current as int) {
                Ok(tokens) => {
                    &&& r is Ok
                    &&& r->Ok_0@ == final(self).tokens@
                    &&& final(self).tokens@.take(old(self).tokens@.len() as int) == old(
                        self,
                    ).tokens@
                    &&& token_views(final(self).tokens@) == token_views(old(self).tokens@) + tokens
                    &&& final(self).current == old(self).text@.len()
                },
                Err(e) => {
                    &&& r is Err
                    &&& r->Err_0@ == e
                    &&& final(self).tokens@ == old(self).tokens@
                },
            },
    {
        let ghost s = self.text@;
        let ghost from = self.current as int;
        let kept = self.tokens.len();
        loop
            invariant
                self.wf(),
                self.text@ == s,
                self.text == old(self).text,
                from == old(self).current,
                kept == old(self).tokens@.len(),
                kept <= self.tokens@.len(),
                self.tokens@.take(kept as int) == old(self).tokens@,
                tokens_from(s, from) == prepend(
                    token_views(self.tokens@.skip(kept as int)),
                    tokens_from(s, self.current as int),
                ),
            ensures
                self.current == s.len(),
            decreases s.len() - self.current,
        {
            if self.peek().is_none() {
                break ;
            }
            self.start = self.current;
            let ghost before = self.tokens@;
            let ghost pos = self.current as int;
            match self.scan_token() {
                Ok(()) => {
                    proof {
                        lemma_scanned_step(
                            s,
                            from,
                            kept as int,
                            pos,
                            before,
                            self.tokens@,
                            self.current as int,
                        );
                    }
                },
                Err(e) => {
                    self.tokens.truncate(kept);
                    assert(self.tokens@ == old(self).tokens@);
                    return Err(e);
                },
            }
        }
        let line = self.line;
        let ghost scanned = self.tokens@;
        self.add_token(TokenType::Eof, None, line);
        proof {
            lemma_scanned_all(s, kept as int, scanned, self.tokens@);
        }
        Ok(self.tokens.as_slice())
    }

    /// Reads the next character, if there is one, and counts it.
    fn advance(&mut self) -> (c: Option<char>)
        requires
            old(self).synced(),
        ensures
            final(self).wf(),
            final(self).text == old(self).text,
            final(self).tokens == old(self).tokens,
            final(self).start == old(self).start,
            old(self).current < old(self).text@.len() ==> c == Some(
                old(self).text@[old(self).current as int],
            ) && final(self).current == old(self).current + 1,
            old(self).current >= old(self).text@.len() ==> c.is_none() && final(self).current
                == old(self).current,
    {
        let c = next_char(&mut self.source);
        match c {
            Some(ch) => {
                proof {
                    let s = self.text@;
                    let at = self.current as int;
                    assert(s.skip(at)[0] == s[at]);
                    assert(s.skip(at).drop_first() == s.skip(at + 1));
                }
                self.current += 1;
                if ch == '\n' && self.line < usize::MAX {
                    self.line += 1;
                }
            },
            None => {},
        }
        c
    }

    /// Looks at the character at the peek cursor, if there is one, and
    /// moves the cursor past it. Reads nothing.
    fn peek(&mut self) -> (c: Option<char>)
        requires
            old(self).synced(),
        ensures
            final(self).synced(),
            final(self).text == old(self).text,
            final(self).tokens == old(self).tokens,
            final(self).start == old(self).start,
            final(self).current == old(self).current,
            old(self).current + cursor(old(self).source) < old(self).text@.len() ==> c == Some(
                old(self).text@[old(self).current + cursor(old(self).source)],
            ) && cursor(final(self).source) == cursor(old(self).source) + 1,
            old(self).current + cursor(old(self).source) >= old(self).text@.len() ==> c.is_none()
                && cursor(final(self).source) == cursor(old(self).source),
    {
        peek_char(&mut self.source)
    }

    /// Puts the peek cursor back at the next character.
    fn rewind(&mut self)
        requires
            old(self).synced(),
        ensures
            final(self).wf(),
            final(self).text == old(self).text,
            final(self).tokens == old(self).tokens,
            final(self).start == old(self).start,
            final(self).current == old(self).current,
    {
        reset_peek(&mut self.source)
    }

    /// Reads the next character if it is `expected`, and says whether it
    /// was.
    fn peek_match(&mut self, expected: char) -> (matched: bool)
        requires
            old(self).wf(),
        ensures
            final(self).wf(),
            final(self).text == old(self).text,
            final(self).tokens == old(self).tokens,
            final(self).start == old(self).start,
            matched == has_char(old(self).text@, old(self).current as int, expected),
            final(self).current == if matched {
                old(self).current + 1
            } else {
                old(self).current as int
            },
    {
        match self.peek() {
            None => false,
            Some(ch) => {
                if ch != expected {
                    self.rewind();
                    false
                } else {
                    let _ = self.advance();
                    true
                }
            },
        }
    }

    /// Appends a token of the given kind, literal and line.
    fn add_token(&mut self, token_type: TokenType, literal: Option<LiteralValue>, line: usize)
        ensures
            final(self).source == old(self).source,
            final(self).text == old(self).text,
            final(self).line == old(self).line,
            final(self).current == old(self).current,
            final(self).start == old(self).start,
            pushed(
                old(self).tokens@,
                final(self).tokens@,
                TokenView { kind: token_type, literal: literal_view(literal), line: line as nat },
            ),
    {
        self.tokens.push(Token { token_type, literal, line });
        assert(self.tokens@.drop_last() == old(self).tokens@);
    }

    /// Reads the run of digits that starts at the next character and
    /// appends it to `value`.
    fn scan_digits(&mut self, value: &mut String)
        requires
            old(self).wf(),
        ensures
            final(self).wf(),
            final(self).text == old(self).text,
            final(self).tokens == old(self).tokens,
            final(self).start == old(self).start,
            final(self).line == old(self).line,
            final(self).current == digits_end(old(self).text@, old(self).current as int),
            old(self).current <= final(self).current,
            final(value)@ == old(value)@ + old(self).text@.subrange(
                old(self).current as int,
                final(self).current as int,
            ),
    {
        let ghost s = self.text@;
        let ghost from = self.current as int;
        loop
            invariant
                self.wf(),
                self.text@ == s,
                self.text == old(self).text,
                self.tokens == old(self).tokens,
                self.start == old(self).start,
                self.line == old(self).line,
                from == old(self).current,
                from <= self.current <= s.len(),
                forall|i: int| from <= i < self.current ==> is_digit(#[trigger] s[i]),
                value@ == old(value)@ + s.subrange(from, self.current as int),
            ensures
                self.current < s.len() ==> !is_digit(s[self.current as int]),
            decreases s.len() - self.current,
        {
            match self.peek() {
                Some(c) if c.is_decimal_digit() => {
                    let _ = self.advance();
                    value.push(c);
                    assert(s.subrange(from, self.current as int) == s.subrange(
                        from,
                        self.current - 1,
                    ).push(c));
                },
                _ => {
                    self.rewind();
                    break ;
                },
            }
        }
        proof {
            lemma_run_end_unique(s, from, |c: char| is_digit(c), self.current as int);
        }
    }

    /// Scans a string literal whose opening quote has been read, up to and
    /// with its closing quote.
    fn scan_string(&mut self) -> (r: Result<(), LexError>)
        requires
            old(self).wf(),
            old(self).current == old(self).start + 1,
            old(self).text@[old(self).start as int] == '"',
        ensures
            final(self).wf(),
            final(self).text == old(self).text,
            final(self).start == old(self).start,
            string_end(old(self).text@, old(self).current as int) < old(self).text@.len() ==> {
                &&& r is Ok
                &&& final(self).current == string_end(old(self).text@, old(self).current as int)
                    + 1
                &&& pushed(
                    old(self).tokens@,
                    final(self).tokens@,
                    TokenView {
                        kind: TokenType::String,
                        literal: Some(
                            LiteralView::Text(
                                old(self).text@.subrange(
                                    old(self).current as int,
                                    string_end(old(self).text@, old(self).current as int),
                                ),
                            ),
                        ),
                        line: line_at(old(self).text@, old(self).start as int),
                    },
                )
            },
            string_end(old(self).text@, old(self).current as int) >= old(self).text@.len() ==> {
                &&& r is Err
                &&& r->Err_0@ == LexErrorView::UnterminatedString {
                    line: line_at(old(self).text@, old(self).start as int),
                }
                &&& final(self).tokens == old(self).tokens
            },
    {
        let ghost s = self.text@;
        let ghost from = self.current as int;
        let line = self.line;
        let mut value = String::new();
        loop
            invariant
                self.wf(),
                self.text@ == s,
                self.text == old(self).text,
                self.tokens == old(self).tokens,
                self.start == old(self).start,
                from == old(self).current,
                from <= self.current <= s.len(),
                line == line_at(s, old(self).start as int),
                forall|i: int| from <= i < self.current ==> #[trigger] s[i] != '"',
                value@ == s.subrange(from, self.current as int),
            decreases s.len() - self.current,
        {
            match self.advance() {
                None => {
                    proof {
                        lemma_run_end_unique(s, from, |c: char| c != '"', self.current as int);
                    }
                    return Err(LexError::UnterminatedString { line });
                },
                Some(c) => {
                    if c == '"' {
                        proof {
                            lemma_run_end_unique(s, from, |c: char| c != '"', self.current - 1);
                        }
                        self.add_token(TokenType::String, Some(LiteralValue::Text(value)), line);
                        return Ok(());
                    }
                    value.push(c);
                    assert(s.subrange(from, self.current as int) == s.subrange(
                        from,
                        self.current - 1,
                    ).push(c));
                },
            }
        }
    }

    /// Scans a numeral whose first digit, `first`, has been read.
    fn scan_number(&mut self, first: char)
        requires
            old(self).wf(),
            old(self).current == old(self).start + 1,
            old(self).text@[old(self).start as int] == first,
            is_digit(first),
        ensures
            final(self).wf(),
            final(self).text == old(self).text,
            final(self).start == old(self).start,
            final(self).current == number_end(old(self).text@, old(self).start as int),
            pushed(
                old(self).tokens@,
                final(self).tokens@,
                TokenView {
                    kind: TokenType::Number,
                    literal: Some(
                        LiteralView::Number(
                            old(self).text@.subrange(
                                old(self).start as int,
                                number_end(old(self).text@, old(self).start as int),
                            ),
                        ),
                    ),
                    line: line_at(old(self).text@, old(self).start as int),
                },
            ),
    {
        let ghost s = self.text@;
        let ghost from = self.start as int;
        let mut value = String::new();
        value.push(first);
        assert(value@ == s.subrange(from, from + 1));
        self.scan_digits(&mut value);
        assert(value@ == s.subrange(from, self.current as int));
        let point = self.peek();
        let after = self.peek();
        self.rewind();
        let fraction = match (point, after) {
            (Some(p), Some(d)) => p == '.' && d.is_decimal_digit(),
            _ => false,
        };
        if fraction {
            let ghost whole = self.current as int;
            let _ = self.advance();
            value.push('.');
            assert(value@ == s.subrange(from, whole + 1));
            self.scan_digits(&mut value);
            assert(value@ == s.subrange(from, self.current as int));
        }
        let line = self.line;
        self.add_token(TokenType::Number, Some(LiteralValue::Number(value)), line);
    }

    /// Scans a word whose first character, `first`, has been read: a
    /// reserved word or an identifier.
    fn scan_identifier(&mut self, first: char)
        requires
            old(self).wf(),
            old(self).current == old(self).start + 1,
            old(self).text@[old(self).start as int] == first,
            first != '\n',
        ensures
            final(self).wf(),
            final(self).text == old(self).text,
            final(self).start == old(self).start,
            final(self).current == word_end(old(self).text@, old(self).current as int),
            pushed(
                old(self).tokens@,
                final(self).tokens@,
                TokenView {
                    kind: word_kind(
                        old(self).text@.subrange(
                            old(self).start as int,
                            word_end(old(self).text@, old(self).current as int),
                        ),
                    ),
                    literal: Some(
                        LiteralView::Text(
                            old(self).text@.subrange(
                                old(self).start as int,
                                word_end(old(self).text@, old(self).current as int),
                            ),
                        ),
                    ),
                    line: line_at(old(self).text@, old(self).start as int),
                },
            ),
    {
        let ghost s = self.text@;
        let ghost from = self.start as int;
        let line = self.line;
        let mut text = String::new();
        text.push(first);
        assert(text@ == s.subrange(from, from + 1));
        loop
            invariant
                self.wf(),
                self.text@ == s,
                self.text == old(self).text,
                self.tokens == old(self).tokens,
                self.start == old(self).start,
                self.line == line,
                from == self.start,
                from + 1 <= self.current <= s.len(),
                forall|i: int| from + 1 <= i < self.current ==> is_identifier_char(#[trigger] s[i]),
                text@ == s.subrange(from, self.current as int),
            ensures
                self.current < s.len() ==> !is_identifier_char(s[self.current as int]),
            decreases s.len() - self.current,
        {
            match self.peek() {
                Some(c) if c.is_ascii_identifier_char() => {
                    let _ = self.advance();
                    text.push(c);
                    assert(s.subrange(from, self.current as int) == s.subrange(
                        from,
                        self.current - 1,
                    ).push(c));
                },
                _ => {
                    self.rewind();
                    break ;
                },
            }
        }
        proof {
            lemma_run_end_unique(s, from + 1, |c: char| is_identifier_char(c), self.current as int);
        }
        let token_type = match keyword_kind(text.as_str()) {
            Some(kind) => kind,
            None => TokenType::Identifier,
        };
        self.add_token(token_type, Some(LiteralValue::Text(text)), line);
    }

    /// Scans an operator whose first character has been read: `with_equal`
    /// where `=` follows it, `alone` where none does.
    fn scan_operator(&mut self, alone: TokenType, with_equal: TokenType)
        requires
            old(self).wf(),
            old(self).current == old(self).start + 1,
            old(self).text@[old(self).start as int] != '\n',
        ensures
            final(self).wf(),
            final(self).text == old(self).text,
            final(self).start == old(self).start,
            has_char(old(self).text@, old(self).current as int, '=') ==> final(self).current
                == old(self).current + 1 && pushed(
                old(self).tokens@,
                final(self).tokens@,
                TokenView {
                    kind: with_equal,
                    literal: None,
                    line: line_at(old(self).text@, old(self).start as int),
                },
            ),
            !has_char(old(self).text@, old(self).current as int, '=') ==> final(self).current
                == old(self).current && pushed(
                old(self).tokens@,
                final(self).tokens@,
                TokenView {
                    kind: alone,
                    literal: None,
                    line: line_at(old(self).text@, old(self).start as int),
                },
            ),
    {
        let line = self.line;
        let token_type = if self.peek_match('=') {
            with_equal
        } else {
            alone
        };
        self.add_token(token_type, None, line);
    }

    /// Skips the text of a line comment whose two slashes have been read:
    /// everything before the next line feed.
    fn skip_comment(&mut self)
        requires
            old(self).wf(),
        ensures
            final(self).wf(),
            final(self).text == old(self).text,
            final(self).tokens == old(self).tokens,
            final(self).start == old(self).start,
            final(self).current == comment_end(old(self).text@, old(self).current as int),
    {
        let ghost s = self.text@;
        let ghost from = self.current as int;
        loop
            invariant
                self.wf(),
                self.text@ == s,
                self.text == old(self).text,
                self.tokens == old(self).tokens,
                self.start == old(self).start,
                from == old(self).current,
                from <= self.current <= s.len(),
                forall|i: int| from <= i < self.current ==> #[trigger] s[i] != '\n',
            ensures
                self.current < s.len() ==> s[self.current as int] == '\n',
            decreases s.len() - self.current,
        {
            match self.peek() {
                Some(c) if c != '\n' => {
                    let _ = self.advance();
                },
                _ => {
                    self.rewind();
                    break ;
                },
            }
        }
        proof {
            lemma_run_end_unique(s, from, |c: char| c != '\n', self.current as int);
        }
    }

    /// Scans the lexeme that starts at the next character.
    fn scan_token(&mut self) -> (r: Result<(), LexError>)
        requires
            old(self).synced(),
            old(self).current < old(self).text@.len(),
            old(self).start == old(self).current,
        ensures
            final(self).wf(),
            final(self).text == old(self).text,
            final(self).start == old(self).start,
            scanned(
                old(self).text@,
                old(self).current as int,
                old(self).tokens@,
                final(self).tokens@,
                final(self).current as int,
                r,
            ),
    {
        let line = self.line;
        let c = match self.advance() {
            Some(c) => c,
            None => {
                return Ok(());
            },
        };
        match c {
            '(' => self.add_token(TokenType::LeftParen, None, line),
            ')' => self.add_token(TokenType::RightParen, None, line),
            '{' => self.add_token(TokenType::LeftBrace, None, line),
            '}' => self.add_token(TokenType::RightBrace, None, line),
            ',' => self.add_token(TokenType::Comma, None, line),
            '.' => self.add_token(TokenType::Dot, None, line),
            ';' => self.add_token(TokenType::SemiColon, None, line),
            '*' => self.scan_operator(TokenType::Star, TokenType::StarEqual),
            '+' => self.scan_operator(TokenType::Plus, TokenType::PlusEqual),
            '!' => self.scan_operator(TokenType::Bang, TokenType::BangEqual),
            '=' => self.scan_operator(TokenType::Equal, TokenType::EqualEqual),
            '-' => self.scan_operator(TokenType::Minus, TokenType::MinusEqual),
            '<' => self.scan_operator(TokenType::Less, TokenType::LessEqual),
            '>' => self.scan_operator(TokenType::Greater, TokenType::GreaterEqual),
            '/' => {
                if self.peek_match('/') {
                    self.skip_comment();
                } else {
                    self.scan_operator(TokenType::Slash, TokenType::SlashEqual);
                }
            },
            ' ' | '\r' | '\t' | '\n' => {},
            '"' => {
                return self.scan_string();
            },
            _ => {
                if c.is_decimal_digit() {
                    self.scan_number(c);
                } else if c.is_ascii_identifier_start() {
                    self.scan_identifier(c);
                } else {
                    return Err(
                        LexError::InvalidCharacter(
                            InvalidCharacterError { invalid_char: c, column: self.start, line },
                        ),
                    );
                }
            },
        }
        Ok(())
    }
}

/// The tokens of `source`, the end-of-input token last, or its first
/// lexical error.
pub fn scan(source: &str) -> (r: Result<Vec<Token>, LexError>)
    ensures
        match tokens_of(source@) {
            Ok(tokens) => r is Ok && token_views(r->Ok_0@) == tokens,
            Err(e) => r is Err && r->Err_0@ == e,
        },
{
    let mut lexer = Lexer::new(source);
    match lexer.scan_tokens() {
        Ok(_) => {
            assert(token_views(Seq::<Token>::empty()) + tokens_of(source@)->Ok_0 == tokens_of(
                source@,
            )->Ok_0);
            Ok(lexer.tokens)
        },
        Err(e) => Err(e),
    }
}

/// Whether `after` is `before` with one more token at its end, whose view
/// is `token`.
pub open spec fn pushed(before: Seq<Token>, after: Seq<Token>, token: TokenView) -> bool {
    &&& after.len() == before.len() + 1
    &&& after.drop_last() == before
    &&& after.last()@ == token
}

/// Whether scanning the lexeme at position `pos` of `s` turns the tokens
/// `before` into `after`, ends at position `end` and gives `r`: the lexeme's
/// token, if it has one, is appended and `end` is where the lexeme ends; on
/// a failure the tokens stay and `r` is the error.
pub open spec fn scanned(
    s: Seq<char>,
    pos: int,
    before: Seq<Token>,
    after: Seq<Token>,
    end: int,
    r: Result<(), LexError>,
) -> bool {
    match lexeme_at(s, pos) {
        Lexeme::Skip { end: e } => r is Ok && end == e && after == before,
        Lexeme::Token { kind, literal, end: e } => r is Ok && end == e && pushed(
            before,
            after,
            TokenView { kind, literal, line: line_at(s, pos) },
        ),
        Lexeme::Invalid => r is Err && after == before && r->Err_0@
            == LexErrorView::InvalidCharacter {
            invalid_char: s[pos],
            column: pos as nat,
            line: line_at(s, pos),
        },
        Lexeme::Unterminated => r is Err && after == before && r->Err_0@
            == LexErrorView::UnterminatedString { line: line_at(s, pos) },
    }
}

/// One successful scanning step keeps the tokens scanned so far in step
/// with the tokens of the source.
pub proof fn lemma_scanned_step(
    s: Seq<char>,
    from: int,
    kept: int,
    pos: int,
    before: Seq<Token>,
    after: Seq<Token>,
    end: int,
)
    requires
        0 <= pos < s.len(),
        0 <= kept <= before.len(),
        scanned(s, pos, before, after, end, Ok(())),
        tokens_from(s, from) == prepend(token_views(before.skip(kept)), tokens_from(s, pos)),
    ensures
        pos < end <= s.len(),
        kept <= after.len(),
        after.take(kept) == before.take(kept),
        tokens_from(s, from) == prepend(token_views(after.skip(kept)), tokens_from(s, end)),
{
    lemma_lexeme_advances(s, pos);
    match lexeme_at(s, pos) {
        Lexeme::Token { kind, literal, end } => {
            let token = TokenView { kind, literal, line: line_at(s, pos) };
            assert(before == after.drop_last());
            assert(after.take(kept) == before.take(kept));
            assert(token_views(after.skip(kept)) == token_views(before.skip(kept)).push(token));
            let rest = tokens_from(s, end);
            match rest {
                Ok(tokens) => {
                    assert(token_views(before.skip(kept)) + (seq![token] + tokens) == token_views(
                        after.skip(kept),
                    ) + tokens);
                },
                Err(_) => {},
            }
        },
        _ => {},
    }
}

/// Appending the end-of-input token to the tokens scanned up to the end
/// of the source completes the tokens of the source.
pub proof fn lemma_scanned_all(s: Seq<char>, kept: int, scanned: Seq<Token>, all: Seq<Token>)
    requires
        0 <= kept <= scanned.len(),
        pushed(scanned, all, end_token(s)),
    ensures
        all.take(kept) == scanned.take(kept),
        token_views(all) == token_views(scanned.take(kept)) + (token_views(scanned.skip(kept))
            + seq![end_token(s)]),
{
    assert(all.take(kept) == scanned.take(kept));
    assert(token_views(all.skip(kept)) == token_views(scanned.skip(kept)) + seq![end_token(s)]);
    assert(token_views(all) == token_views(all.take(kept)) + token_views(all.skip(kept)));
}

} // verus!
