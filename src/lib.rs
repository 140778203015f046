//! Syntactic front end of a small statically-typed functional language: a
//! precedence-climbing parser from a token stream to an abstract syntax tree,
//! with diagnostics collected along the way.
use vstd::prelude::*;

pub mod token;
pub mod lexer;
pub mod ast;
pub mod text;
pub mod parser;

verus! {

} // verus!
