//! Front end of a small scripting language: a single-pass scanner that turns
//! source text into tokens, a diagnostics sink for lexical errors, and an
//! expression tree with a fully parenthesised printer.
pub mod expr;
pub mod lox;
pub mod scan_laws;
pub mod scanner;
pub mod text;
pub mod token;
