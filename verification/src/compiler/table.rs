//! The compiler's table of variables and the helpers that emit code.

use crate::compiler::state::{
    depth_delta, newest, newest_at, patched, position, position_from, variables_view, Build, CompileError,
    CompileErrorView, CompilerView, Failure, Variable, VariableView,
};
use crate::shared::Span;
use crate::typing::{fields_view, types_view, FunctionType, Type, TypeView};
use crate::vm::chunk::{Chunk, ChunkView};
use crate::vm::op::OpCode;
use crate::vm::value::{Heap, Object, Value};
use vstd::prelude::*;

verus! {

pub type CompileResult<T> = Result<T, CompileError>;

/// The compiler: the variables declared so far, and how deep the scope lies
/// that is being compiled.
#[derive(Debug)]
pub struct Compiler {
    pub variables: Vec<Variable>,
    pub scope_depth: usize,
}

impl View for Compiler {
    type V = CompilerView;

    open spec fn view(&self) -> CompilerView {
        CompilerView {
            variables: variables_view(self.variables@),
            scope_depth: self.scope_depth,
        }
    }
}

/// What compiling has built so far.
pub open spec fn now(compiler: Compiler, chunk: Chunk, heap: Heap) -> Build {
    Build { compiler: compiler@, chunk: chunk@, heap: heap@ }
}

/// Whether a compilation ended as `expected` says: with the table, the code
/// and the heap that it names, and where it failed, with its error as well.
pub open spec fn built(expected: Result<Build, Failure>, result: Result<(), CompileError>, after: Build) -> bool {
    match expected {
        Ok(build) => result is Ok && after == build,
        Err(failure) => result matches Err(found) && found@ == failure.error && after
            == failure.build,
    }
}

/// Whether a type was found as `expected` says.
pub open spec fn typed(
    expected: Result<TypeView, CompileErrorView>,
    result: Result<Type, CompileError>,
) -> bool {
    match expected {
        Ok(ty) => result matches Ok(found) && found@ == ty,
        Err(error) => result matches Err(found) && found@ == error,
    }
}

/// By how many frames a variable declared at `depth` lies above the frame of
/// the scope at `scope_depth`.
pub fn delta(depth: usize, scope_depth: usize) -> (frames: isize)
    ensures
        frames == depth_delta(depth, scope_depth),
{
    let declared = #[verifier::truncate]
    (depth as isize);
    let current = #[verifier::truncate]
    (scope_depth as isize);
    declared.wrapping_sub(current)
}

/// The place of the field called `name`.
pub fn field_position(fields: &Vec<(String, Type)>, name: &String) -> (place: Option<usize>)
    ensures
        match place {
            Some(found) => position(fields_view(fields@), name@) == Some(found as int) && found
                < fields.len(),
            None => position(fields_view(fields@), name@) is None,
        },
{
    let mut i: usize = 0;
    while i < fields.len()
        invariant
            i <= fields.len(),
            position(fields_view(fields@), name@) == position_from(
                fields_view(fields@),
                name@,
                i as int,
            ),
        decreases fields.len() - i,
    {
        if fields[i].0 == *name {
            return Some(i);
        }
        i += 1;
    }
    None
}

impl Compiler {
    #[must_use]
    pub fn new() -> (compiler: Self)
        ensures
            compiler@ == CompilerView::fresh(),
    {
        let compiler = Self { variables: Vec::new(), scope_depth: 0 };
        assert(compiler@.variables =~= Seq::<VariableView>::empty());
        compiler
    }

    /// Makes a function of the host known to the programs compiled from now on.
    /// Returns the slot in which its value is looked for.
    pub fn add_native_func(&mut self, name: String, args: Vec<Type>, output_type: Option<Type>) -> (slot:
        usize)
        ensures
            (final(self)@, slot) == old(self)@.create_var(
                name@,
                false,
                TypeView::Function {
                    args: types_view(args@),
                    output: Box::new(
                        match output_type {
                            Some(output) => output@,
                            None => TypeView::Nothing,
                        },
                    ),
                },
                None,
            ),
    {
        let output = match output_type {
            Some(output) => output,
            None => Type::Nothing,
        };
        let ty = Type::Function(FunctionType { args, output_type: Box::new(output) });
        proof {
            crate::typing::lemma_type_view(ty);
        }
        self.create_var(name, false, ty, None)
    }

    pub fn push_scope(&mut self)
        ensures
            final(self)@ == old(self)@.push_scope(),
    {
        self.scope_depth = self.scope_depth.wrapping_add(1);
    }

    pub fn pop_scope(&mut self)
        ensures
            final(self)@ == old(self)@.pop_scope(),
    {
        self.scope_depth = self.scope_depth.wrapping_sub(1);
    }

    /// The slot of the newest variable called `name`.
    pub fn find(&self, name: &String) -> (slot: Option<usize>)
        ensures
            match slot {
                Some(found) => found < self.variables.len() && newest(
                    self@.variables,
                    name@,
                    self@.variables.len() as int,
                ) == Some(found as int),
                None => newest(self@.variables, name@, self@.variables.len() as int) is None,
            },
    {
        let mut i: usize = self.variables.len();
        while i > 0
            invariant
                i <= self.variables.len(),
                newest(self@.variables, name@, self@.variables.len() as int) == newest(
                    self@.variables,
                    name@,
                    i as int,
                ),
            decreases i,
        {
            i -= 1;
            if self.variables[i].name == *name {
                return Some(i);
            }
        }
        None
    }

    /// The newest variable called `name`, with its slot.
    pub fn get_var(&self, accessed_at: Span, name: &String) -> (found: CompileResult<
        (usize, &Variable),
    >)
        ensures
            match self@.get_var(accessed_at, name@) {
                Ok((slot, variable)) => found matches Ok(pair) && pair.0 == slot && pair.1@
                    == variable && pair.0 < self.variables.len(),
                Err(error) => found matches Err(other) && other@ == error,
            },
    {
        match self.find(name) {
            Some(slot) => Ok((slot, &self.variables[slot])),
            None => Err(CompileError::VariableNotExist { name: name.clone(), accessed_at }),
        }
    }

    /// The slot of the newest variable called `name` that was declared at
    /// `depth`.
    pub fn find_at(&self, name: &String, depth: usize) -> (slot: Option<usize>)
        ensures
            match slot {
                Some(found) => found < self.variables.len() && newest_at(
                    self@.variables,
                    name@,
                    depth,
                    self@.variables.len() as int,
                ) == Some(found as int),
                None => newest_at(self@.variables, name@, depth, self@.variables.len() as int)
                    is None,
            },
    {
        let mut i: usize = self.variables.len();
        while i > 0
            invariant
                i <= self.variables.len(),
                newest_at(self@.variables, name@, depth, self@.variables.len() as int)
                    == newest_at(self@.variables, name@, depth, i as int),
            decreases i,
        {
            i -= 1;
            if self.variables[i].depth == depth && self.variables[i].name == *name {
                return Some(i);
            }
        }
        None
    }

    /// The slot for a declaration of `name`; see
    /// [`CompilerView::get_or_create_var`].
    pub fn get_or_create_var(&mut self, name: String, ty: Type, mutable: bool, span: Option<Span>) -> (slot:
        usize)
        ensures
            (final(self)@, slot) == old(self)@.get_or_create_var(name@, ty@, mutable, span),
    {
        if let Some(slot) = self.find_at(&name, self.scope_depth) {
            return slot;
        }
        match self.find(&name) {
            Some(slot) => {
                let ghost before = self@.variables;
                self.variables[slot].mutable = mutable;
                self.variables[slot].ty = ty;
                self.variables[slot].span = span;
                assert(self@.variables =~= before.update(
                    slot as int,
                    VariableView { mutable, ty: ty@, span, ..before[slot as int] },
                ));
                slot
            },
            None => self.create_var(name, mutable, ty, span),
        }
    }

    /// A new variable in the scope that is being compiled.
    pub fn create_var(&mut self, name: String, mutable: bool, ty: Type, span: Option<Span>) -> (slot:
        usize)
        ensures
            (final(self)@, slot) == old(self)@.create_var(name@, mutable, ty@, span),
    {
        self.variables.push(Variable { name, depth: self.scope_depth, mutable, ty, span });
        assert(self@.variables =~= old(self)@.variables.push(
            VariableView { name: name@, depth: self.scope_depth, mutable, ty: ty@, span },
        ));
        self.variables.len() - 1
    }

    /// Sets the jump at `start` to lead to `end`.
    pub fn patch_jump(chunk: &mut Chunk, start: usize, end: usize)
        ensures
            final(chunk)@ == (ChunkView {
                code: patched(old(chunk)@.code, start, end),
                ..old(chunk)@
            }),
    {
        if start < chunk.code.len() {
            let (line, op) = chunk.code[start];
            match op {
                OpCode::Jump(_) => {
                    let from = #[verifier::truncate]
                    (start as isize);
                    let to = #[verifier::truncate]
                    (end as isize);
                    chunk.code[start] = (line, OpCode::Jump(to.wrapping_sub(from)));
                },
                OpCode::JumpIfFalse(_) => {
                    chunk.code[start] = (line, OpCode::JumpIfFalse(end.wrapping_sub(start)));
                },
                _ => {},
            }
        }
    }

    /// Adds a constant and returns its index.
    pub fn create_const(chunk: &mut Chunk, value: Value) -> (index: usize)
        ensures
            index == old(chunk)@.constants.len(),
            final(chunk)@ == (ChunkView {
                constants: old(chunk)@.constants.push(value),
                ..old(chunk)@
            }),
    {
        let constant = chunk.constants();
        chunk.push_const(value);
        constant
    }

    /// Adds a constant and the instruction that loads it.
    pub fn compile_const(chunk: &mut Chunk, line: usize, value: Value)
        ensures
            final(chunk)@ == (ChunkView {
                code: old(chunk)@.code.push(
                    (line, OpCode::LoadConst(old(chunk)@.constants.len() as usize)),
                ),
                constants: old(chunk)@.constants.push(value),
            }),
    {
        let constant = Self::create_const(chunk, value);
        chunk.push(line, OpCode::LoadConst(constant));
    }

    /// Puts `object` on the heap and emits the code that stores it in `slot`
    /// of the top frame: a constant that refers to the object, the
    /// instruction that loads it, and `SetLocal`.
    pub fn define(chunk: &mut Chunk, heap: &mut Heap, line: usize, object: Object, slot: usize)
        ensures
            final(heap)@ == old(heap)@.push(object@),
            final(chunk)@ == (ChunkView {
                code: old(chunk)@.code.push(
                    (line, OpCode::LoadConst(old(chunk)@.constants.len() as usize)),
                ).push((line, OpCode::SetLocal(None, slot))),
                constants: old(chunk)@.constants.push(
                    Value::Object(old(heap)@.len() as usize),
                ),
            }),
    {
        let value = Value::object(heap, object);
        Self::compile_const(chunk, line, value);
        chunk.push(line, OpCode::SetLocal(None, slot));
    }
}

impl Default for Compiler {
    fn default() -> (compiler: Self)
        ensures
            compiler@ == CompilerView::fresh(),
    {
        Self::new()
    }
}

} // verus!
