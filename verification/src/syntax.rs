//! Lexing and parsing of monye source text.
pub mod ast;
pub mod grammar;
pub mod lexer;
pub mod parser;
