//! Tokens: the lexical categories, the values that literals carry, and the
//! mathematical views that the contracts of the lexer and parser speak of.

use vstd::prelude::*;

verus! {

/// The lexical category of a token.
#[derive(Clone, Copy, Debug, PartialEq, Eq, Structural)]
pub enum TokenType {
    LeftParen,
    RightParen,
    LeftBrace,
    RightBrace,
    LeftBracket,
    RightBracket,
    Comma,
    Dot,
    SemiColon,
    Colon,
    Plus,
    PlusEqual,
    Minus,
    MinusEqual,
    Equal,
    EqualEqual,
    Star,
    StarEqual,
    Slash,
    SlashEqual,
    Bang,
    BangEqual,
    Less,
    LessEqual,
    Greater,
    GreaterEqual,
    Identifier,
    String,
    Number,
    And,
    Class,
    Else,
    False,
    Fun,
    For,
    If,
    Nil,
    Or,
    Print,
    Return,
    Super,
    This,
    True,
    Var,
    While,
    Eof,
}

/// The value attached to a token or held by a literal expression.
///
/// A number is kept as the numeral that stands in the source: one or more
/// decimal digits, optionally followed by a point and one or more digits.
/// Turning the numeral into a binary floating-point value is left to the
/// caller.
#[derive(Debug, PartialEq, Eq)]
pub enum LiteralValue {
    Text(String),
    Number(String),
    Bool(bool),
}

/// A classified unit of source text.
#[derive(Debug, PartialEq, Eq)]
pub struct Token {
    pub token_type: TokenType,
    pub literal: Option<LiteralValue>,
    /// The 1-based line on which the token starts.
    pub line: usize,
}

/// What a `LiteralValue` stands for.
pub enum LiteralView {
    Text(Seq<char>),
    Number(Seq<char>),
    Bool(bool),
}

/// What a `Token` stands for.
pub struct TokenView {
    pub kind: TokenType,
    pub literal: Option<LiteralView>,
    pub line: nat,
}

impl View for LiteralValue {
    type V = LiteralView;

    open spec fn view(&self) -> LiteralView {
        match self {
            LiteralValue::Text(s) => LiteralView::Text(s@),
            LiteralValue::Number(s) => LiteralView::Number(s@),
            LiteralValue::Bool(b) => LiteralView::Bool(*b),
        }
    }
}

/// The view of an optional literal.
pub open spec fn literal_view(literal: Option<LiteralValue>) -> Option<LiteralView> {
    match literal {
        Some(value) => Some(value@),
        None => None,
    }
}

impl View for Token {
    type V = TokenView;

    open spec fn view(&self) -> TokenView {
        TokenView {
            kind: self.token_type,
            literal: literal_view(self.literal),
            line: self.line as nat,
        }
    }
}

/// The views of a sequence of tokens, in order.
pub open spec fn token_views(tokens: Seq<Token>) -> Seq<TokenView> {
    tokens.map_values(|t: Token| t@)
}

impl Clone for LiteralValue {
    fn clone(&self) -> (copy: Self)
        ensures
            copy == *self,
    {
        match self {
            LiteralValue::Text(s) => LiteralValue::Text(s.clone()),
            LiteralValue::Number(s) => LiteralValue::Number(s.clone()),
            LiteralValue::Bool(b) => LiteralValue::Bool(*b),
        }
    }
}

/// A copy of an optional literal.
pub fn clone_literal(literal: &Option<LiteralValue>) -> (copy: Option<LiteralValue>)
    ensures
        copy == *literal,
{
    match literal {
        Some(value) => Some(value.clone()),
        None => None,
    }
}

impl Clone for Token {
    fn clone(&self) -> (copy: Self)
        ensures
            copy == *self,
    {
        Token {
            token_type: self.token_type,
            literal: clone_literal(&self.literal),
            line: self.line,
        }
    }
}

/// The name of a kind of token: the name of its variant.
pub open spec fn kind_name(kind: TokenType) -> Seq<char> {
    match kind {
        TokenType::LeftParen => "LeftParen"@,
        TokenType::RightParen => "RightParen"@,
        TokenType::LeftBrace => "LeftBrace"@,
        TokenType::RightBrace => "RightBrace"@,
        TokenType::LeftBracket => "LeftBracket"@,
        TokenType::RightBracket => "RightBracket"@,
        TokenType::Comma => "Comma"@,
        TokenType::Dot => "Dot"@,
        TokenType::SemiColon => "SemiColon"@,
        TokenType::Colon => "Colon"@,
        TokenType::Plus => "Plus"@,
        TokenType::PlusEqual => "PlusEqual"@,
        TokenType::Minus => "Minus"@,
        TokenType::MinusEqual => "MinusEqual"@,
        TokenType::Equal => "Equal"@,
        TokenType::EqualEqual => "EqualEqual"@,
        TokenType::Star => "Star"@,
        TokenType::StarEqual => "StarEqual"@,
        TokenType::Slash => "Slash"@,
        TokenType::SlashEqual => "SlashEqual"@,
        TokenType::Bang => "Bang"@,
        TokenType::BangEqual => "BangEqual"@,
        TokenType::Less => "Less"@,
        TokenType::LessEqual => "LessEqual"@,
        TokenType::Greater => "Greater"@,
        TokenType::GreaterEqual => "GreaterEqual"@,
        TokenType::Identifier => "Identifier"@,
        TokenType::String => "String"@,
        TokenType::Number => "Number"@,
        TokenType::And => "And"@,
        TokenType::Class => "Class"@,
        TokenType::Else => "Else"@,
        TokenType::False => "False"@,
        TokenType::Fun => "Fun"@,
        TokenType::For => "For"@,
        TokenType::If => "If"@,
        TokenType::Nil => "Nil"@,
        TokenType::Or => "Or"@,
        TokenType::Print => "Print"@,
        TokenType::Return => "Return"@,
        TokenType::Super => "Super"@,
        TokenType::This => "This"@,
        TokenType::True => "True"@,
        TokenType::Var => "Var"@,
        TokenType::While => "While"@,
        TokenType::Eof => "Eof"@,
    }
}

impl TokenType {
    /// The name of the kind.
    pub fn name(&self) -> (name: &'static str)
        ensures
            name@ == kind_name(*self),
    {
        match self {
            TokenType::LeftParen => "LeftParen",
            TokenType::RightParen => "RightParen",
            TokenType::LeftBrace => "LeftBrace",
            TokenType::RightBrace => "RightBrace",
            TokenType::LeftBracket => "LeftBracket",
            TokenType::RightBracket => "RightBracket",
            TokenType::Comma => "Comma",
            TokenType::Dot => "Dot",
            TokenType::SemiColon => "SemiColon",
            TokenType::Colon => "Colon",
            TokenType::Plus => "Plus",
            TokenType::PlusEqual => "PlusEqual",
            TokenType::Minus => "Minus",
            TokenType::MinusEqual => "MinusEqual",
            TokenType::Equal => "Equal",
            TokenType::EqualEqual => "EqualEqual",
            TokenType::Star => "Star",
            TokenType::StarEqual => "StarEqual",
            TokenType::Slash => "Slash",
            TokenType::SlashEqual => "SlashEqual",
            TokenType::Bang => "Bang",
            TokenType::BangEqual => "BangEqual",
            TokenType::Less => "Less",
            TokenType::LessEqual => "LessEqual",
            TokenType::Greater => "Greater",
            TokenType::GreaterEqual => "GreaterEqual",
            TokenType::Identifier => "Identifier",
            TokenType::String => "String",
            TokenType::Number => "Number",
            TokenType::And => "And",
            TokenType::Class => "Class",
            TokenType::Else => "Else",
            TokenType::False => "False",
            TokenType::Fun => "Fun",
            TokenType::For => "For",
            TokenType::If => "If",
            TokenType::Nil => "Nil",
            TokenType::Or => "Or",
            TokenType::Print => "Print",
            TokenType::Return => "Return",
            TokenType::Super => "Super",
            TokenType::This => "This",
            TokenType::True => "True",
            TokenType::Var => "Var",
            TokenType::While => "While",
            TokenType::Eof => "Eof",
        }
    }
}

/// The kind of the reserved word `text`, if it is one.
pub open spec fn keyword(text: Seq<char>) -> Option<TokenType> {
    if text == "and"@ {
        Some(TokenType::And)
    } else if text == "class"@ {
        Some(TokenType::Class)
    } else if text == "else"@ {
        Some(TokenType::Else)
    } else if text == "false"@ {
        Some(TokenType::False)
    } else if text == "fun"@ {
        Some(TokenType::Fun)
    } else if text == "for"@ {
        Some(TokenType::For)
    } else if text == "if"@ {
        Some(TokenType::If)
    } else if text == "nil"@ {
        Some(TokenType::Nil)
    } else if text == "or"@ {
        Some(TokenType::Or)
    } else if text == "print"@ {
        Some(TokenType::Print)
    } else if text == "return"@ {
        Some(TokenType::Return)
    } else if text == "super"@ {
        Some(TokenType::Super)
    } else if text == "this"@ {
        Some(TokenType::This)
    } else if text == "true"@ {
        Some(TokenType::True)
    } else if text == "var"@ {
        Some(TokenType::Var)
    } else if text == "while"@ {
        Some(TokenType::While)
    } else {
        None
    }
}

/// The kind of the word `text`: that of the reserved word, or `Identifier`.
pub open spec fn word_kind(text: Seq<char>) -> TokenType {
    match keyword(text) {
        Some(kind) => kind,
        None => TokenType::Identifier,
    }
}

/// Looks `text` up in the table of reserved words.
pub fn keyword_kind(text: &str) -> (kind: Option<TokenType>)
    ensures
        kind == keyword(text@),
{
    if text.eq("and") {
        Some(TokenType::And)
    } else if text.eq("class") {
        Some(TokenType::Class)
    } else if text.eq("else") {
        Some(TokenType::Else)
    } else if text.eq("false") {
        Some(TokenType::False)
    } else if text.eq("fun") {
        Some(TokenType::Fun)
    } else if text.eq("for") {
        Some(TokenType::For)
    } else if text.eq("if") {
        Some(TokenType::If)
    } else if text.eq("nil") {
        Some(TokenType::Nil)
    } else if text.eq("or") {
        Some(TokenType::Or)
    } else if text.eq("print") {
        Some(TokenType::Print)
    } else if text.eq("return") {
        Some(TokenType::Return)
    } else if text.eq("super") {
        Some(TokenType::Super)
    } else if text.eq("this") {
        Some(TokenType::This)
    } else if text.eq("true") {
        Some(TokenType::True)
    } else if text.eq("var") {
        Some(TokenType::Var)
    } else if text.eq("while") {
        Some(TokenType::While)
    } else {
        None
    }
}

/// A literal as text: a text as it is, a number as its numeral, a boolean
/// as `true` or `false`.
pub open spec fn literal_text(value: LiteralView) -> Seq<char> {
    match value {
        LiteralView::Text(text) => text,
        LiteralView::Number(numeral) => numeral,
        LiteralView::Bool(b) => if b {
            "true"@
        } else {
            "false"@
        },
    }
}

/// A token as text: the name of its kind, a space, and its literal as text
/// or `None`.
pub open spec fn token_text(token: TokenView) -> Seq<char> {
    kind_name(token.kind) + " "@ + match token.literal {
        Some(value) => literal_text(value),
        None => "None"@,
    }
}

impl LiteralValue {
    /// The literal as text.
    pub fn to_string(&self) -> (text: String)
        ensures
            text@ == literal_text(self@),
    {
        match self {
            LiteralValue::Text(s) => s.clone(),
            LiteralValue::Number(numeral) => numeral.clone(),
            LiteralValue::Bool(b) => if *b {
                String::from_str("true")
            } else {
                String::from_str("false")
            },
        }
    }
}

impl Token {
    /// The token as text.
    pub fn to_string(&self) -> (text: String)
        ensures
            text@ == token_text(self@),
    {
        let mut text = String::from_str(self.token_type.name());
        text.append(" ");
        match &self.literal {
            Some(value) => {
                let literal = value.to_string();
                text.append(literal.as_str());
            },
            None => {
                text.append("None");
            },
        }
        text
    }
}

} // verus!
