//! A tree-walking interpreter for a small dynamically typed scripting
//! language: a lexer, a precedence-climbing parser and an evaluator over
//! lexically scoped environments.
//!
//! Every stage is total. It either succeeds or returns every diagnostic it
//! could find, and each public function states its result over the
//! mathematical views of its arguments.

pub mod ast;
pub mod atium;
pub mod environment;
pub mod error;
pub mod impetuous;
pub mod interpreter;
pub mod lexer;
pub mod parser;
pub mod text;
pub mod token;
