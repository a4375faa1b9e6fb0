//! From text to tokens to a statement tree.

pub mod ast;
pub mod expr_parser;
pub mod lexer;
pub mod parse;
pub mod query_parser;
