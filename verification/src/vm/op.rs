//! The instruction set.

use vstd::prelude::*;

verus! {

/// One instruction of the stack machine.
#[derive(Debug, Clone, Copy, PartialEq, Eq, PartialOrd, Ord, Structural)]
pub enum OpCode {
    Pop,
    LoadConst(usize),
    Equal,
    Greater,
    Less,
    Add,
    Sub,
    Mul,
    Div,
    Negate,
    Return,
    SetProperty(usize),
    GetProperty(usize),
    GetLocal(isize, usize),
    SetLocal(Option<usize>, usize),
    Jump(isize),
    JumpIfFalse(usize),
    Call(usize),
    Copy,
    PushFrame,
    PopFrame,
    CreateInstance,
    Halt,
}

impl OpCode {
    /// The width of the instruction in a listing: two for those that load a
    /// constant or touch a local, one for the rest.
    pub open spec fn spec_size(&self) -> usize {
        match self {
            OpCode::LoadConst(_) | OpCode::GetLocal(..) | OpCode::SetLocal(..) => 2,
            _ => 1,
        }
    }

    #[must_use]
    #[verifier::when_used_as_spec(spec_size)]
    pub fn size(&self) -> (width: usize)
        ensures
            width == self.spec_size(),
    {
        match self {
            Self::LoadConst(_) | Self::GetLocal(..) | Self::SetLocal(..) => 2,
            _ => 1,
        }
    }
}

} // verus!
