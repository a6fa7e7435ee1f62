//! A context-sensitive lexer for a host language that embeds markup and
//! style sub-syntaxes. The parser steers the lexer's modes through a small
//! transition API; every token the lexer produces is described exactly by
//! the spec functions of `rules`.

pub mod cursor;
pub mod laws;
pub mod lexer;
pub mod rules;
pub mod text;
pub mod token;

pub use lexer::Lexer;
pub use token::{Token, TokenKind};
