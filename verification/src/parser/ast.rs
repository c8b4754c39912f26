//! The syntax tree. Every node carries the span it was read from.

use crate::shared::{Decimal, Positioned};
use crate::typing::Type;
use vstd::prelude::*;

verus! {

/// A name.
#[derive(Debug, Clone, PartialEq, Eq, PartialOrd, Ord)]
pub struct Ident(pub String);

#[derive(Debug, Clone, PartialEq)]
pub enum Number {
    Float(Decimal),
    Int(i64),
}

#[derive(Debug, Clone, PartialEq)]
pub enum Literal {
    Number(Number),
    String(String),
    Boolean(bool),
}

#[derive(Debug, Clone, Copy, PartialEq, Eq, Structural)]
pub enum Operator {
    Assign,
    Add,
    Sub,
    Mul,
    Div,
    Equal,
    NotEqual,
    LessThan,
    GreaterThan,
    And,
    Or,
}

#[derive(Debug, PartialEq)]
pub struct BinaryExpression {
    pub lhs: Positioned<Expression>,
    pub rhs: Positioned<Expression>,
    pub operator: Positioned<Operator>,
}

/// Statements in braces, and the expression without a semicolon that may end
/// them and gives the block its value.
#[derive(Debug, PartialEq)]
pub struct Block {
    pub statements: Vec<Positioned<Statement>>,
    pub return_statement: Option<Box<Positioned<Statement>>>,
}

#[derive(Debug, PartialEq)]
pub struct FunctionCall {
    pub target: Box<Positioned<Expression>>,
    pub args: Positioned<Vec<Positioned<Expression>>>,
}

#[derive(Debug, PartialEq)]
pub struct IfElseExpression {
    pub condition: Box<Positioned<Expression>>,
    pub block: Positioned<Block>,
    pub else_block: Option<Box<Positioned<Expression>>>,
}

/// What a property is found by: its position in a record, its name in a struct.
#[derive(Debug, Clone, PartialEq)]
pub enum IndexKind {
    Number(usize),
    Ident(Ident),
}

#[derive(Debug, PartialEq)]
pub struct IndexExpression {
    pub target: Positioned<Expression>,
    pub index: Positioned<IndexKind>,
}

/// The left side of an arm of a `match`: a name, which takes any value, or a
/// value to compare with.
#[derive(Debug, PartialEq)]
pub enum MatchCase {
    Ident(Ident),
    Value(Expression),
}

#[derive(Debug, PartialEq)]
pub struct MatchVariant {
    pub case: Positioned<MatchCase>,
    pub body: Positioned<Expression>,
}

#[derive(Debug, PartialEq)]
pub struct MatchExpression {
    pub target: Box<Positioned<Expression>>,
    pub variants: Vec<Positioned<MatchVariant>>,
}

#[derive(Debug, PartialEq)]
pub struct StructFieldValue {
    pub name: Positioned<Ident>,
    pub value: Positioned<Expression>,
}

#[derive(Debug, PartialEq)]
pub enum InstanceArgs {
    Struct(Vec<Positioned<StructFieldValue>>),
    Record(Vec<Positioned<Expression>>),
}

#[derive(Debug, PartialEq)]
pub struct NewInstanceExpression {
    pub target: Positioned<Ident>,
    pub args: Positioned<InstanceArgs>,
}

#[derive(Debug, PartialEq)]
pub enum Expression {
    Literal(Literal),
    FunctionCall(FunctionCall),
    Ident(Ident),
    NewInstance(NewInstanceExpression),
    IfElse(IfElseExpression),
    Block(Block),
    Match(MatchExpression),
    Binary(Box<BinaryExpression>),
    Index(Box<IndexExpression>),
}

#[derive(Debug, PartialEq)]
pub struct VariableStatement {
    pub mutable: Positioned<bool>,
    pub name: Positioned<Ident>,
    pub ty: Option<Positioned<Type>>,
    pub value: Positioned<Expression>,
}

#[derive(Debug, Clone, PartialEq, Eq)]
pub struct StructField {
    pub name: Positioned<Ident>,
    pub ty: Positioned<Type>,
}

#[derive(Debug, Clone, PartialEq, Eq)]
pub struct StructStatement {
    pub name: Positioned<Ident>,
    pub fields: Positioned<Vec<Positioned<StructField>>>,
}

#[derive(Debug, Clone, PartialEq, Eq)]
pub struct RecordStatement {
    pub name: Positioned<Ident>,
    pub fields: Positioned<Vec<Positioned<Type>>>,
}

#[derive(Debug, Clone, PartialEq, Eq)]
pub struct FuncArg {
    pub name: Positioned<Ident>,
    pub ty: Positioned<Type>,
}

#[derive(Debug, PartialEq)]
pub struct FuncStatement {
    pub name: Positioned<Ident>,
    pub args: Positioned<Vec<Positioned<FuncArg>>>,
    pub output_type: Option<Positioned<Type>>,
    pub body: Positioned<Block>,
}

#[derive(Debug, PartialEq)]
pub struct ForStatement {
    pub name: Positioned<Ident>,
    pub target: Positioned<Expression>,
    pub body: Positioned<Block>,
}

#[derive(Debug, PartialEq)]
pub struct WhileStatement {
    pub condition: Positioned<Expression>,
    pub body: Positioned<Block>,
}

#[derive(Debug, PartialEq)]
pub enum Statement {
    Variable(VariableStatement),
    Struct(StructStatement),
    Record(RecordStatement),
    Func(FuncStatement),
    ForIn(ForStatement),
    WhileLoop(WhileStatement),
    Expression(Expression),
}

} // verus!
