//! A tree-walking interpreter for a small, dynamically typed,
//! expression-oriented scripting language.
//!
//! Source text is tokenised by a single-lookahead lexer, parsed by a Pratt
//! (top-down operator precedence) parser into an abstract syntax tree, and
//! evaluated against a chain of lexical scopes.  Each stage is specified by
//! a functional model (`spec` functions over views of the data types), and
//! the executable code is proved to agree with that model.

pub mod ast;
pub mod builtin;
pub mod environment;
pub mod eval;
pub mod eval_infix;
pub mod eval_spec;
pub mod errors;
pub mod lexer;
pub mod parse_expression;
pub mod parse_infix;
pub mod parse_prefix;
pub mod parse_props;
pub mod parse_spec;
pub mod parse_statement;
pub mod object;
pub mod parser;
pub mod render;
pub mod strutil;
pub mod token;

