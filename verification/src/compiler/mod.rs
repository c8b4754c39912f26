//! The compiler: it checks the types of a program and turns it into code in one
//! pass.

pub mod table;
pub mod traits;
pub mod check;
pub mod emit;
pub mod halts;
pub mod jumps;
pub mod keeps;
pub mod laws;
pub mod rules;
pub mod state;

pub use crate::compiler::state::{
    Build, CompileError, CompileErrorView, CompilerView, Failure, InstanceArgsType, Variable,
    VariableView,
};
pub use crate::compiler::table::{CompileResult, Compiler};
pub use crate::compiler::traits::{Compile, CompileAssign, CompilePositioned, GetType};
