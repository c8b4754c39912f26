//! A small statically typed scripting language: a lexer, a parser, a compiler
//! that checks types while it emits bytecode, and a stack machine that runs the
//! bytecode.
//!
//! A program goes through four stages. The [`lexer`] turns text into tokens,
//! the [`parser`] turns tokens into a syntax tree, the [`compiler`] turns the
//! tree into a [`vm::Chunk`] of code and constants, and the machine in [`vm`]
//! runs the chunk. [`runtime`] ties them together.
//!
//! Each stage states what it does over mathematical values: sequences of
//! characters and tokens, trees whose lists are sequences, and the state of the
//! machine. The modules called `rules` and `state` hold these statements as
//! functions, the modules called `laws` hold what follows from them, and the
//! code is proved to do what the rules say.
//!
//! The machine does two things by asking for them instead of doing them: it
//! calls no function of the host itself, and it computes nothing with floating
//! point. It stops with a [`vm::Request`], and goes on when it is handed the
//! answer. It also stops when it has run as many instructions as it was given
//! fuel for, and can go on from there.

pub mod compiler;
pub mod lexer;
pub mod parser;
pub mod runtime;
pub mod shared;
pub mod text;
pub mod typing;
pub mod vm;

pub use crate::shared::{Decimal, DecimalView, Float, Positioned, Span};
pub use crate::typing::{AsType, FunctionType, RecordType, StructType, Type};
pub use crate::runtime::{FunctionBuilder, Runtime, RuntimeError};
