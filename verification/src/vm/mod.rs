//! The bytecode and the machine that runs it.

pub mod chunk;
pub mod machine;
pub mod op;
pub mod state;
pub mod value;

pub use crate::vm::chunk::{Chunk, ChunkView, CodePosition};
pub use crate::vm::op::OpCode;
pub use crate::vm::value::{
    Args, Float, Function, FunctionMetadata, Heap, NativeFunction, Object, ObjectView, Record,
    RecordInstance, Struct, StructInstance, Value,
};
pub use crate::vm::state::{Call, Fault, FrameView, Machine, OutcomeView, RequestView};
pub use crate::vm::machine::{Outcome, Request, StackFrame, VM};
pub mod laws;
