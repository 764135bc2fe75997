//! A compiler for a small subset of C: a single `int main(void)` function
//! with `int` locals, assignments, and unary and binary expressions.
//!
//! The pipeline runs in five passes, each a verified function from one
//! representation to the next: [`lexer::lex`], [`parser::parse`],
//! [`resolve::resolve`], [`irgen::flatten`], [`codegen::generate`], and
//! finally [`emit::emit`], which renders Intel-syntax x86-64 assembly.

pub mod error;
pub mod token;
pub mod assembly;
pub mod ast;
pub mod ir;
pub mod text;
pub mod codegen;
pub mod lexer;
pub mod irgen;
pub mod emit;
pub mod parser;
pub mod resolve;
