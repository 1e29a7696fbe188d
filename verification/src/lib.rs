//! A small front end for an expression-oriented teaching language: a
//! hand-rolled lexer and a precedence-climbing recursive-descent parser with
//! user-declared custom infix operators, both verified against spec-level
//! models of the token stream and the grammar.

pub mod ast;
pub mod error;
pub mod grammar;
pub mod laws;
pub mod lexer;
pub mod parser;
pub mod prec;
pub mod printer;
pub mod token;
