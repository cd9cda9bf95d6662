//! A verified tree-walking interpreter for the Monkey programming language:
//! lexer, Pratt parser, canonical pretty-printer and recursive evaluator,
//! each specified against a mathematical model of the language.
#![verifier::loop_isolation(false)]

pub mod evaluator;
pub mod lexer;
pub mod object;
pub mod parser;
pub mod text;
