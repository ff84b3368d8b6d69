//! The syntax tree of Script programs, its rendering as source text, and the
//! parser that builds it from tokens.
pub mod ast;
pub mod parser;
pub mod grammar;
pub mod token;
