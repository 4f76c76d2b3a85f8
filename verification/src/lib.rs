//! Front end for a small C-like language: a tokenizer that turns source
//! text into located tokens, and a recursive-descent parser that turns the
//! token sequence into an abstract syntax tree.
//!
//! Both stages return structured diagnostics (kind, message, location)
//! instead of aborting, and both are specified against purely mathematical
//! models of the scan: `lexer::spec_tokenize` and `parser::spec_parse`.

pub mod ast;
pub mod diag;
pub mod laws;
pub mod lexer;
pub mod parser;
pub mod text;
pub mod tokens;
