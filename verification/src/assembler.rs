//! The assembler: source text to lines, lines to a program image.

pub mod ast;
pub mod generator;
pub mod grammar;
pub mod parser;
pub mod program;
pub mod roundtrip;
pub mod text;
