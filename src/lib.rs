//! Compiles an indentation-structured macro script into a raw byte stream.
//!
//! Lines of text are parsed into a forest of [`block::Block`]s (by
//! [`parser::parse`]), and the forest is evaluated against a fresh scope (by
//! [`evaluator::evaluate`]) into the output bytes; [`script::compile`] does both.
pub mod block;
pub mod debug;
pub mod error;
pub mod evaluator;
pub mod parser;
pub mod script;
pub mod text;
