//! The script language: a dynamically typed sibling of wervc with strings,
//! comments and function definitions by `let name(params) = body;`.
pub mod token;
pub mod lexer;
pub mod ast;
pub mod parser;
pub mod grammar;
pub mod object;
pub mod environment;
pub mod eval;
