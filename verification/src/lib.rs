//! Tokenizer and command parser for a publish/subscribe wire protocol.

pub mod buffer;
pub mod lexer;
pub mod parser;
pub mod text;
