//! Front end of a small imperative-language toolchain: a tokenizer that
//! turns raw source text into a token sequence, and a recursive-descent
//! parser that turns the token sequence into an abstract syntax tree.

pub mod ast;
pub mod laws;
pub mod lex_error;
pub mod lex_spec;
pub mod lexer;
pub mod parse_error;
pub mod parse_spec;
pub mod parser;
pub mod source;
pub mod token;
pub mod util;

pub use token::Token;
