//! A small C-like language front end: preprocessor, lexer, parser, a stack
//! bytecode generator and the pieces of the stack machine that runs it.
pub mod ast;
pub mod chars;
pub mod ir;
pub mod lexer;
pub mod preprocessor;
pub mod text;
pub mod vm;
