//! What the compiler knows while it works: the variables, the errors, and the
//! code built so far, as mathematical values.

use crate::shared::Span;
use crate::typing::{types_view, Type, TypeView};
use crate::vm::chunk::ChunkView;
use crate::vm::op::OpCode;
use crate::vm::value::{ObjectView, Value};
use vstd::prelude::*;

verus! {

/// Which kind of instance a list of arguments makes, or a property belongs to.
#[derive(Debug, Clone, Copy, PartialEq, Eq, Structural)]
pub enum InstanceArgsType {
    Struct,
    Record,
}

impl InstanceArgsType {
    /// `struct` or `record`.
    pub fn name(&self) -> (text: &'static str)
        ensures
            text@ == match self {
                InstanceArgsType::Struct => "struct"@,
                InstanceArgsType::Record => "record"@,
            },
    {
        match self {
            Self::Struct => "struct",
            Self::Record => "record",
        }
    }
}

/// Why a program was not compiled. The first error ends the compilation.
#[derive(Debug, PartialEq, Eq)]
pub enum CompileError {
    VariableNotExist { name: String, accessed_at: Span },
    PropertyNotExist { target: String, property: String, defined_at: Option<Span>, at: Span },
    ImmutableVariable { name: String, accessed_at: Span, declared_at: Option<Span> },
    TypeExpected { expected: Type, found: Type, at: Span },
    OneOfTypeExpected { expected: Vec<Type>, found: Type, at: Span },
    InvalidArgumentsCount { expected: usize, got: usize, function_at: Option<Span>, at: Span },
    InvalidInstanceArgs {
        expected: InstanceArgsType,
        got: InstanceArgsType,
        instance_at: Option<Span>,
        at: Span,
    },
}

pub ghost enum CompileErrorView {
    VariableNotExist { name: Seq<char>, accessed_at: Span },
    PropertyNotExist { target: Seq<char>, property: Seq<char>, defined_at: Option<Span>, at: Span },
    ImmutableVariable { name: Seq<char>, accessed_at: Span, declared_at: Option<Span> },
    TypeExpected { expected: TypeView, found: TypeView, at: Span },
    OneOfTypeExpected { expected: Seq<TypeView>, found: TypeView, at: Span },
    InvalidArgumentsCount { expected: usize, got: usize, function_at: Option<Span>, at: Span },
    InvalidInstanceArgs {
        expected: InstanceArgsType,
        got: InstanceArgsType,
        instance_at: Option<Span>,
        at: Span,
    },
}

impl View for CompileError {
    type V = CompileErrorView;

    open spec fn view(&self) -> CompileErrorView {
        match self {
            CompileError::VariableNotExist { name, accessed_at } => CompileErrorView::VariableNotExist {
                name: name@,
                accessed_at: *accessed_at,
            },
            CompileError::PropertyNotExist {
                target,
                property,
                defined_at,
                at,
            } => CompileErrorView::PropertyNotExist {
                target: target@,
                property: property@,
                defined_at: *defined_at,
                at: *at,
            },
            CompileError::ImmutableVariable {
                name,
                accessed_at,
                declared_at,
            } => CompileErrorView::ImmutableVariable {
                name: name@,
                accessed_at: *accessed_at,
                declared_at: *declared_at,
            },
            CompileError::TypeExpected { expected, found, at } => CompileErrorView::TypeExpected {
                expected: expected@,
                found: found@,
                at: *at,
            },
            CompileError::OneOfTypeExpected {
                expected,
                found,
                at,
            } => CompileErrorView::OneOfTypeExpected {
                expected: types_view(expected@),
                found: found@,
                at: *at,
            },
            CompileError::InvalidArgumentsCount {
                expected,
                got,
                function_at,
                at,
            } => CompileErrorView::InvalidArgumentsCount {
                expected: *expected,
                got: *got,
                function_at: *function_at,
                at: *at,
            },
            CompileError::InvalidInstanceArgs {
                expected,
                got,
                instance_at,
                at,
            } => CompileErrorView::InvalidInstanceArgs {
                expected: *expected,
                got: *got,
                instance_at: *instance_at,
                at: *at,
            },
        }
    }
}

/// A variable of the program: where it was declared and what it holds. Its slot
/// is its place in the table.
#[derive(Debug)]
pub struct Variable {
    pub name: String,
    pub depth: usize,
    pub mutable: bool,
    pub ty: Type,
    pub span: Option<Span>,
}

pub ghost struct VariableView {
    pub name: Seq<char>,
    pub depth: usize,
    pub mutable: bool,
    pub ty: TypeView,
    pub span: Option<Span>,
}

impl View for Variable {
    type V = VariableView;

    open spec fn view(&self) -> VariableView {
        VariableView {
            name: self.name@,
            depth: self.depth,
            mutable: self.mutable,
            ty: self.ty@,
            span: self.span,
        }
    }
}

pub open spec fn variables_view(variables: Seq<Variable>) -> Seq<VariableView> {
    Seq::new(variables.len(), |i: int| variables[i]@)
}

/// The table of variables and the depth of the scope that is being compiled.
#[verifier::ext_equal]
pub ghost struct CompilerView {
    pub variables: Seq<VariableView>,
    pub scope_depth: usize,
}

/// The place of the newest variable called `name` among the first `upto`.
pub open spec fn newest(variables: Seq<VariableView>, name: Seq<char>, upto: int) -> Option<int>
    decreases upto,
{
    if upto <= 0 {
        None
    } else if variables[upto - 1].name == name {
        Some(upto - 1)
    } else {
        newest(variables, name, upto - 1)
    }
}

/// The place of the newest variable called `name` that was declared at `depth`,
/// among the first `upto`.
pub open spec fn newest_at(
    variables: Seq<VariableView>,
    name: Seq<char>,
    depth: usize,
    upto: int,
) -> Option<int>
    decreases upto,
{
    if upto <= 0 {
        None
    } else if variables[upto - 1].name == name && variables[upto - 1].depth == depth {
        Some(upto - 1)
    } else {
        newest_at(variables, name, depth, upto - 1)
    }
}

/// The first place from `from` on at which a field is called `name`.
pub open spec fn position_from(fields: Seq<(Seq<char>, TypeView)>, name: Seq<char>, from: int) -> Option<
    int,
>
    decreases fields.len() - from,
{
    if from < 0 || from >= fields.len() {
        None
    } else if fields[from].0 == name {
        Some(from)
    } else {
        position_from(fields, name, from + 1)
    }
}

/// The place of the field called `name` in the order of the declaration.
pub open spec fn position(fields: Seq<(Seq<char>, TypeView)>, name: Seq<char>) -> Option<int> {
    position_from(fields, name, 0)
}

/// By how many frames a variable declared at `depth` lies above the frame of
/// the scope at `scope_depth`: their difference, which is negative for a
/// variable of an enclosing scope. It wraps around where it does not fit.
pub open spec fn depth_delta(depth: usize, scope_depth: usize) -> isize {
    (depth as isize).wrapping_sub(scope_depth as isize)
}

/// The distance of a jump from `start` to `end`, which wraps around where it
/// does not fit.
pub open spec fn jump_distance(start: usize, end: usize) -> isize {
    (end as isize).wrapping_sub(start as isize)
}

impl CompilerView {
    pub open spec fn fresh() -> CompilerView {
        CompilerView { variables: Seq::empty(), scope_depth: 0 }
    }

    /// The newest variable called `name`, with its slot.
    pub open spec fn get_var(self, accessed_at: Span, name: Seq<char>) -> Result<
        (int, VariableView),
        CompileErrorView,
    > {
        match newest(self.variables, name, self.variables.len() as int) {
            Some(slot) => Ok((slot, self.variables[slot])),
            None => Err(CompileErrorView::VariableNotExist { name, accessed_at }),
        }
    }

    /// A new variable in the scope that is being compiled; its slot is the next
    /// free one.
    pub open spec fn create_var(
        self,
        name: Seq<char>,
        mutable: bool,
        ty: TypeView,
        span: Option<Span>,
    ) -> (CompilerView, usize) {
        (
            CompilerView {
                variables: self.variables.push(
                    VariableView { name, depth: self.scope_depth, mutable, ty, span },
                ),
                ..self
            },
            self.variables.len() as usize,
        )
    }

    /// The slot for a declaration of `name`. Where a variable of that name was
    /// declared in the scope that is being compiled, the newest such one is
    /// taken as it is, and the table stays as it is. Where there is none, but one
    /// of that name was declared in another scope, the newest one of that name
    /// is shadowed: it takes the new type, mutability and place of declaration,
    /// and keeps its slot, its name and its depth. Where there is none of that
    /// name at all, a new variable is made.
    pub open spec fn get_or_create_var(
        self,
        name: Seq<char>,
        ty: TypeView,
        mutable: bool,
        span: Option<Span>,
    ) -> (CompilerView, usize) {
        match newest_at(self.variables, name, self.scope_depth, self.variables.len() as int) {
            Some(slot) => (self, slot as usize),
            None => match newest(self.variables, name, self.variables.len() as int) {
                Some(slot) => (
                    CompilerView {
                        variables: self.variables.update(
                            slot,
                            VariableView { mutable, ty, span, ..self.variables[slot] },
                        ),
                        ..self
                    },
                    slot as usize,
                ),
                None => self.create_var(name, mutable, ty, span),
            },
        }
    }

    pub open spec fn push_scope(self) -> CompilerView {
        CompilerView { scope_depth: self.scope_depth.wrapping_add(1), ..self }
    }

    pub open spec fn pop_scope(self) -> CompilerView {
        CompilerView { scope_depth: self.scope_depth.wrapping_sub(1), ..self }
    }
}

/// The code with the jump at `start` set to lead to `end`: a `Jump` to the
/// signed distance, a `JumpIfFalse` to the unsigned one. Where `start` holds
/// another instruction or none, nothing changes.
pub open spec fn patched(code: Seq<(usize, OpCode)>, start: usize, end: usize) -> Seq<(usize, OpCode)> {
    if start < code.len() {
        match code[start as int].1 {
            OpCode::Jump(_) => code.update(
                start as int,
                (code[start as int].0, OpCode::Jump(jump_distance(start, end))),
            ),
            OpCode::JumpIfFalse(_) => code.update(
                start as int,
                (code[start as int].0, OpCode::JumpIfFalse(end.wrapping_sub(start))),
            ),
            _ => code,
        }
    } else {
        code
    }
}

/// The code with the jumps at `jumps[from..]` all set to lead to `end`.
pub open spec fn patched_all(
    code: Seq<(usize, OpCode)>,
    jumps: Seq<usize>,
    from: int,
    end: usize,
) -> Seq<(usize, OpCode)>
    decreases jumps.len() - from,
{
    if from < 0 || from >= jumps.len() {
        code
    } else {
        patched_all(patched(code, jumps[from], end), jumps, from + 1, end)
    }
}

/// Everything that compiling changes: the table of variables, the code and its
/// constants, and the heap that holds the objects among the constants.
#[verifier::ext_equal]
pub ghost struct Build {
    pub compiler: CompilerView,
    pub chunk: ChunkView,
    pub heap: Seq<ObjectView>,
}

/// A compilation that has failed: the error, and what had been built when
/// it was met. The code of what was compiled before the error stays in the
/// chunk, and a check that fails before anything is emitted leaves everything
/// as it was.
pub ghost struct Failure {
    pub error: CompileErrorView,
    pub build: Build,
}

impl Build {
    /// The number of instructions so far.
    pub open spec fn len(self) -> usize {
        self.chunk.code.len() as usize
    }

    /// With one more instruction, read at `line`.
    pub open spec fn emit(self, line: usize, op: OpCode) -> Build {
        Build {
            chunk: ChunkView { code: self.chunk.code.push((line, op)), ..self.chunk },
            ..self
        }
    }

    /// With one more constant, and the instruction that loads it.
    pub open spec fn load(self, line: usize, value: Value) -> Build {
        Build {
            chunk: ChunkView {
                code: self.chunk.code.push(
                    (line, OpCode::LoadConst(self.chunk.constants.len() as usize)),
                ),
                constants: self.chunk.constants.push(value),
            },
            ..self
        }
    }

    /// With one more object on the heap, and a constant that refers to it, the
    /// instruction that loads it and the one that stores it in `slot` of the
    /// top frame.
    pub open spec fn define(self, line: usize, object: ObjectView, slot: usize) -> Build {
        Build { heap: self.heap.push(object), ..self }.load(
            line,
            Value::Object(self.heap.len() as usize),
        ).emit(line, OpCode::SetLocal(None, slot))
    }

    pub open spec fn patch(self, start: usize, end: usize) -> Build {
        Build {
            chunk: ChunkView { code: patched(self.chunk.code, start, end), ..self.chunk },
            ..self
        }
    }

    /// With the jumps at all of `jumps` set to lead to `end`.
    pub open spec fn patch_all(self, jumps: Seq<usize>, end: usize) -> Build {
        Build {
            chunk: ChunkView { code: patched_all(self.chunk.code, jumps, 0, end), ..self.chunk },
            ..self
        }
    }

    pub open spec fn push_scope(self) -> Build {
        Build { compiler: self.compiler.push_scope(), ..self }
    }

    pub open spec fn pop_scope(self) -> Build {
        Build { compiler: self.compiler.pop_scope(), ..self }
    }

    /// With a new variable; see [`CompilerView::create_var`].
    pub open spec fn declare(
        self,
        name: Seq<char>,
        mutable: bool,
        ty: TypeView,
        span: Option<Span>,
    ) -> (Build, usize) {
        let (compiler, slot) = self.compiler.create_var(name, mutable, ty, span);
        (Build { compiler, ..self }, slot)
    }
}

/// The places `j < upto` at which `keys` holds `key`, in rising order.
pub open spec fn with_key(keys: Seq<int>, key: int, upto: int) -> Seq<int>
    decreases upto,
{
    if upto <= 0 {
        Seq::empty()
    } else if keys[upto - 1] == key {
        with_key(keys, key, upto - 1).push(upto - 1)
    } else {
        with_key(keys, key, upto - 1)
    }
}

/// The places of `keys` whose key is below `bound`, ordered by key, and by
/// place where the keys are equal: the order in which a stable sort by key
/// leaves them.
pub open spec fn ordered(keys: Seq<int>, bound: int) -> Seq<int>
    decreases bound,
{
    if bound <= 0 {
        Seq::empty()
    } else {
        ordered(keys, bound - 1) + with_key(keys, bound - 1, keys.len() as int)
    }
}

} // verus!
