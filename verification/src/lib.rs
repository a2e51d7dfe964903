//! The lexical front end of the language: source text in, tokens with
//! their spans and diagnostics out.

pub mod chars;
pub mod ident;
pub mod laws;
pub mod lexeme;
pub mod lexer;
pub mod number;
pub mod span;
pub mod string;
pub mod symbol;
pub mod text;
pub mod token;
pub mod trivia;

pub use lexer::{get_lexer, tokenize, Lexer};
pub use span::{Error, ErrorKind, Span};
pub use text::integer_text;
pub use token::{Bracket, Keyword, Literal, Operator, StringLiteral, Token};
