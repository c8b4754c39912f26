//! The lexer: from text to tokens.

pub mod chars;
pub mod laws;
pub mod rules;
pub mod scan;
pub mod token;

pub use crate::lexer::token::{StringPart, StringPartView, Token, TokenView};
pub use crate::lexer::scan::Lexer;
