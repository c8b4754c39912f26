//! The syntax tree, and the parser that builds it from tokens.

pub mod ast;
pub mod error;
pub mod laws;
pub mod model;
pub mod parse;
pub mod rules;
pub mod stream;
pub mod tokens;

pub use crate::parser::ast::{
    BinaryExpression, Block, Expression, ForStatement, FuncArg, FuncStatement, FunctionCall, Ident,
    IfElseExpression, IndexExpression, IndexKind, InstanceArgs, Literal, MatchCase,
    MatchExpression, MatchVariant, NewInstanceExpression, Number, Operator, RecordStatement,
    Statement, StructField, StructFieldValue, StructStatement, VariableStatement, WhileStatement,
};
pub use crate::parser::error::{ParseError, ParseMessage, ParseResult, ParseResultExt};
pub use crate::parser::rules::Precedence;
pub use crate::parser::stream::Parser;
pub use crate::parser::parse::Parse;
