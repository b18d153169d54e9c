//! A scanner, recursive-descent parser and tree-walking evaluator for a small
//! dynamically typed expression language.
//!
//! Source text is scanned into tokens, the tokens are parsed into an
//! expression tree, and the tree is evaluated to a value or a runtime error.
//! Numbers are IEEE 754 binary64 values held as their 64-bit patterns: the
//! library compares, tests and negates them on the bits, and leaves rounding
//! arithmetic and decimal conversion to functions that its caller supplies.

pub mod ast;
pub mod ast_printer;
pub mod interpreter;
pub mod lox;
pub mod number;
pub mod parser;
pub mod scanner;
pub mod text;
pub mod token;
pub mod token_type;
