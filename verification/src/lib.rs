//! A line calculator: a tokenizer, a recursive-descent parser and a
//! tree-walking evaluator over a persistent variable environment.
//!
//! A line of arithmetic text (numbers, identifiers, `+ - * / ^`,
//! parentheses, assignment) is tokenized, parsed to an abstract syntax
//! tree, and evaluated to a 64-bit floating point value, carried here as
//! its bit pattern (see [`numeric`]).
pub mod interp;
pub mod lexer;
pub mod numeric;
pub mod parser;
