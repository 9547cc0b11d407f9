//! Front end of a small scripting language: a lexer that turns source text
//! into tokens, a recursive-descent parser that turns tokens into an
//! expression tree, and a printer that renders the tree.
//!
//! The lexical grammar and the grammar of expressions are written down as
//! mathematical functions (`lexeme`, `grammar`); the executable lexers
//! (`lexer`, `scanner`) and the parser (`parser`) are proved to compute
//! them. `reading` and `nesting` hold what is proved of the grammar and
//! of the rendering themselves.

pub mod error;
pub mod grammar;
pub mod lexeme;
pub mod lexer;
pub mod multipeek;
pub mod nesting;
pub mod parser;
pub mod reading;
pub mod repr;
pub mod scanner;
pub mod text;
pub mod token;
pub mod trait_extensions;
