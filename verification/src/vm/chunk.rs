//! A unit of compiled code: instructions with their source lines, and the
//! constants they load.

use crate::vm::op::OpCode;
use crate::vm::value::Value;
use vstd::prelude::*;

verus! {

#[derive(Debug, Clone, PartialEq)]
pub struct Chunk {
    pub code: Vec<(usize, OpCode)>,
    pub constants: Vec<Value>,
}

/// A chunk as two sequences.
pub ghost struct ChunkView {
    pub code: Seq<(usize, OpCode)>,
    pub constants: Seq<Value>,
}

impl View for Chunk {
    type V = ChunkView;

    open spec fn view(&self) -> ChunkView {
        ChunkView { code: self.code@, constants: self.constants@ }
    }
}

/// An instruction in a listing: where it ends, counted in the widths of the
/// instructions up to it, the line it was read at, and the instruction.
#[derive(Debug, Clone, Copy, PartialEq, Eq, Structural)]
pub struct CodePosition {
    pub offset: usize,
    pub line: usize,
    pub value: OpCode,
}

/// The widths of the first `upto` instructions added up, which wraps around
/// where it does not fit.
pub open spec fn offset_at(code: Seq<(usize, OpCode)>, upto: int) -> usize
    decreases upto,
{
    if upto <= 0 {
        0
    } else {
        offset_at(code, upto - 1).wrapping_add(code[upto - 1].1.spec_size())
    }
}

impl ChunkView {
    pub open spec fn empty() -> ChunkView {
        ChunkView { code: Seq::empty(), constants: Seq::empty() }
    }

    /// The listing of the code: every instruction in its order, with the
    /// offset at which it ends.
    pub open spec fn listing(self) -> Seq<CodePosition> {
        Seq::new(
            self.code.len(),
            |i: int|
                CodePosition {
                    offset: offset_at(self.code, i + 1),
                    line: self.code[i].0,
                    value: self.code[i].1,
                },
        )
    }

    /// The instructions without their lines.
    pub open spec fn ops(self) -> Seq<OpCode> {
        Seq::new(self.code.len(), |i: int| self.code[i].1)
    }
}

impl Chunk {
    #[must_use]
    pub fn new() -> (chunk: Self)
        ensures
            chunk@ == ChunkView::empty(),
    {
        Self { code: Vec::new(), constants: Vec::new() }
    }

    /// The number of constants.
    #[must_use]
    pub fn constants(&self) -> (count: usize)
        ensures
            count == self@.constants.len(),
    {
        self.constants.len()
    }

    /// The number of instructions.
    #[must_use]
    pub fn len(&self) -> (count: usize)
        ensures
            count == self@.code.len(),
    {
        self.code.len()
    }

    #[must_use]
    pub fn is_empty(&self) -> (empty: bool)
        ensures
            empty == (self@.code.len() == 0),
    {
        self.code.len() == 0
    }

    /// Appends an instruction read at `line`.
    pub fn push(&mut self, line: usize, byte: OpCode)
        ensures
            final(self)@ == (ChunkView {
                code: old(self)@.code.push((line, byte)),
                constants: old(self)@.constants,
            }),
    {
        self.code.push((line, byte));
    }

    /// Appends a constant; constants already there keep their index.
    pub fn push_const(&mut self, value: Value)
        ensures
            final(self)@ == (ChunkView {
                code: old(self)@.code,
                constants: old(self)@.constants.push(value),
            }),
    {
        self.constants.push(value);
    }

    #[must_use]
    pub fn get_const(&self, index: usize) -> (value: &Value)
        requires
            index < self@.constants.len(),
        ensures
            *value == self@.constants[index as int],
    {
        &self.constants[index]
    }

    #[must_use]
    pub fn get_const_cloned(&self, index: usize) -> (value: Value)
        requires
            index < self@.constants.len(),
        ensures
            value == self@.constants[index as int],
    {
        self.constants[index]
    }

    /// The instruction at `index` with its line.
    #[must_use]
    pub fn get(&self, index: usize) -> (entry: Option<(usize, OpCode)>)
        ensures
            entry == if index < self@.code.len() {
                Some(self@.code[index as int])
            } else {
                None
            },
    {
        if index < self.code.len() {
            Some(self.code[index])
        } else {
            None
        }
    }

    /// Lists the code: every instruction in its order, with the offset at
    /// which it ends and its line.
    pub fn disassemble(&self) -> (listing: Vec<CodePosition>)
        ensures
            listing@ == self@.listing(),
    {
        let mut listing: Vec<CodePosition> = Vec::new();
        let mut offset: usize = 0;
        let mut i: usize = 0;
        while i < self.code.len()
            invariant
                i <= self.code.len(),
                listing.len() == i,
                offset == offset_at(self@.code, i as int),
                forall|k: int| 0 <= k < i ==> listing[k] == self@.listing()[k],
            decreases self.code.len() - i,
        {
            let (line, value) = self.code[i];
            offset = offset.wrapping_add(value.size());
            listing.push(CodePosition { offset, line, value });
            i += 1;
        }
        assert(listing@ =~= self@.listing());
        listing
    }

    /// A copy of the chunk.
    pub fn duplicate(&self) -> (copy: Self)
        ensures
            copy@ == self@,
    {
        let mut copy = Chunk::new();
        let mut i: usize = 0;
        while i < self.code.len()
            invariant
                i <= self.code.len(),
                copy.constants@ == Seq::<Value>::empty(),
                copy.code@ == self.code@.subrange(0, i as int),
            decreases self.code.len() - i,
        {
            copy.code.push(self.code[i]);
            assert(copy.code@ =~= self.code@.subrange(0, i + 1));
            i += 1;
        }
        assert(copy.code@ =~= self.code@);
        let mut k: usize = 0;
        while k < self.constants.len()
            invariant
                k <= self.constants.len(),
                copy.code@ == self.code@,
                copy.constants@ == self.constants@.subrange(0, k as int),
            decreases self.constants.len() - k,
        {
            copy.constants.push(self.constants[k]);
            assert(copy.constants@ =~= self.constants@.subrange(0, k + 1));
            k += 1;
        }
        assert(copy.constants@ =~= self.constants@);
        copy
    }
}

impl Default for Chunk {
    fn default() -> (chunk: Self)
        ensures
            chunk@ == ChunkView::empty(),
    {
        Self::new()
    }
}

} // verus!
