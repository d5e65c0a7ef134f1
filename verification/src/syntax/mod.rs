//! Surface syntax: the lexer (tokens, trivia, literals), the scanner of
//! the leading path directives, diagnostics, the syntax tree and the
//! parser.
pub mod ast;
pub mod diag;
pub mod directives;
pub mod grammar;
pub mod lexer;
pub mod loader;
pub mod parser;
pub mod ruleset_grammar;
