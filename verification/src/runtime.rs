//! The runtime: it takes a program as text through the lexer, the parser and
//! the compiler and runs it on the machine.

use crate::compiler::check::all_supported;

use crate::compiler::rules::{program_compiled, program_supported};
use crate::compiler::state::{CompileError, CompileErrorView, CompilerView};
use crate::compiler::table::Compiler;
use crate::lexer::rules::lexed;
use crate::lexer::scan::Lexer;
use crate::lexer::token::Token;
use crate::parser::ast::{Block, Statement};
use crate::parser::error::{ParseError, ParseErrorView};

use crate::parser::rules::program;
use crate::parser::stream::Parser;
use crate::shared::Positioned;
use crate::typing::{copy_types, types_view, AsType, Type, TypeView};
use crate::vm::chunk::{Chunk, ChunkView};
use crate::vm::machine::{Outcome, VM};
use crate::vm::state::{agrees, FrameView, Machine, OutcomeView};
use crate::vm::value::{
    FunctionMetadata, FunctionMetadataView, Heap, NativeFunction, Object, ObjectView, Value,
};
use vstd::prelude::*;

verus! {

/// Why a program did not run.
#[derive(Debug, PartialEq)]
pub enum RuntimeError {
    ParseError(ParseError),
    CompileError(CompileError),
    /// The text holds an integer that is too large for a token.
    NumberTooLarge,
    /// The program holds a loop, for which the compiler has no code.
    LoopUnsupported,
}

pub ghost enum RuntimeErrorView {
    ParseError(ParseErrorView),
    CompileError(CompileErrorView),
    NumberTooLarge,
    LoopUnsupported,
}

impl View for RuntimeError {
    type V = RuntimeErrorView;

    open spec fn view(&self) -> RuntimeErrorView {
        match self {
            RuntimeError::ParseError(error) => RuntimeErrorView::ParseError(error@),
            RuntimeError::CompileError(error) => RuntimeErrorView::CompileError(error@),
            RuntimeError::NumberTooLarge => RuntimeErrorView::NumberTooLarge,
            RuntimeError::LoopUnsupported => RuntimeErrorView::LoopUnsupported,
        }
    }
}

/// The compiler and the machine together: the programs that are run one after
/// the other share their variables and their objects.
pub struct Runtime {
    pub vm: VM,
    pub compiler: Compiler,
    /// The code of the program that was run last.
    pub chunk: Chunk,
}

/// The runtime as a mathematical value.
pub ghost struct RuntimeView {
    pub machine: Machine,
    pub compiler: CompilerView,
    pub chunk: ChunkView,
}

impl View for Runtime {
    type V = RuntimeView;

    open spec fn view(&self) -> RuntimeView {
        RuntimeView { machine: self.vm@, compiler: self.compiler@, chunk: self.chunk@ }
    }
}

/// A program that did not get to run: why, and what the compiler had done to
/// the table and to the heap by then. Where the text was no program, that is
/// nothing.
pub ghost struct Refusal {
    pub error: RuntimeErrorView,
    pub compiler: CompilerView,
    pub heap: Seq<ObjectView>,
}

/// A program ready to run: its code, and the table and the heap after it was
/// compiled.
pub open spec fn prepared(code: Seq<char>, compiler: CompilerView, heap: Seq<ObjectView>) -> Result<
    crate::compiler::state::Build,
    Refusal,
> {
    match lexed(code) {
        None => Err(Refusal { error: RuntimeErrorView::NumberTooLarge, compiler, heap }),
        Some(tokens) => match program(tokens) {
            Err(stuck) => Err(
                Refusal { error: RuntimeErrorView::ParseError(stuck.error), compiler, heap },
            ),
            Ok(((statements, return_statement), _)) => if !program_supported(
                statements,
                return_statement,
            ) {
                Err(Refusal { error: RuntimeErrorView::LoopUnsupported, compiler, heap })
            } else {
                match program_compiled(statements, return_statement, compiler, heap) {
                    Err(failure) => Err(
                        Refusal {
                            error: RuntimeErrorView::CompileError(failure.error),
                            compiler: failure.build.compiler,
                            heap: failure.build.heap,
                        },
                    ),
                    Ok(build) => Ok(build),
                }
            },
        },
    }
}

impl Runtime {
    /// A runtime with no variables and nothing on the heap.
    #[must_use]
    pub fn new() -> (runtime: Self)
        ensures
            runtime@.compiler == CompilerView::fresh(),
            runtime@.chunk == ChunkView::empty(),
            runtime@.machine == (Machine {
                is_running: false,
                position: 0,
                stack: Seq::empty(),
                frames: seq![FrameView::fresh(0)],
                heap: Seq::empty(),
                calls: Seq::empty(),
            }),
    {
        Self { vm: VM::new(Heap::new()), compiler: Compiler::new(), chunk: Chunk::new() }
    }

    /// Compiles the program `code` and runs it for at most `fuel` instructions.
    /// Where the machine asks for the host, the host answers with
    /// [`Runtime::resume`]. A text that is no program changes nothing; a program
    /// that the compiler refuses leaves the table and the heap as the compiler
    /// left them, and the machine and the code of the last program as they were.
    #[verifier::rlimit(40)]
    pub fn run(&mut self, code: &str, fuel: usize) -> (result: Result<Outcome, RuntimeError>)
        ensures
            match prepared(code@, old(self)@.compiler, old(self)@.machine.heap) {
                Err(refusal) => result matches Err(found) && found@ == refusal.error
                    && final(self)@ == (RuntimeView {
                    compiler: refusal.compiler,
                    machine: Machine { heap: refusal.heap, ..old(self)@.machine },
                    chunk: old(self)@.chunk,
                }),
                Ok(build) => result matches Ok(outcome) && final(self)@.compiler == build.compiler
                    && final(self)@.chunk == build.chunk && agrees(
                    (Machine { heap: build.heap, ..old(self)@.machine }).started().run(
                        build.chunk,
                        fuel as nat,
                    ),
                    final(self)@.machine,
                    outcome@,
                ),
            },
    {
        let tokens = match Lexer::try_parse(code) {
            Some(tokens) => tokens,
            None => {
                return Err(RuntimeError::NumberTooLarge);
            },
        };
        let mut parser = Parser::new(tokens);
        let (statements, return_statement) = match Block::parse_statements_until(
            &mut parser,
            &Token::EOF,
        ) {
            Ok(read) => read,
            Err(error) => {
                return Err(RuntimeError::ParseError(error));
            },
        };
        let ending: Option<&Positioned<Statement>> = match &return_statement {
            Some(statement) => Some(statement),
            None => None,
        };
        let supported = all_supported(&statements) && match ending {
            Some(statement) => statement.value.is_supported(),
            None => true,
        };
        if !supported {
            return Err(RuntimeError::LoopUnsupported);
        }
        match self.compiler.compile(&mut self.vm.heap, &statements, ending) {
            Ok(chunk) => {
                self.chunk = chunk;
                Ok(self.vm.interpret(&self.chunk, fuel))
            },
            Err(error) => Err(RuntimeError::CompileError(error)),
        }
    }

    /// Goes on with the program that was run last, after the host has answered
    /// what the machine asked for.
    pub fn resume(&mut self, reply: Value, fuel: usize) -> (outcome: Outcome)
        ensures
            final(self)@.compiler == old(self)@.compiler,
            final(self)@.chunk == old(self)@.chunk,
            agrees(
                match old(self)@.machine.answered(reply) {
                    (machine, OutcomeView::Running) => machine.run(old(self)@.chunk, fuel as nat),
                    other => other,
                },
                final(self)@.machine,
                outcome@,
            ),
    {
        self.vm.resume(&self.chunk, reply, fuel)
    }
}

impl Default for Runtime {
    fn default() -> (runtime: Self)
        ensures
            runtime@.compiler == CompilerView::fresh(),
            runtime@.chunk == ChunkView::empty(),
            runtime@.machine.heap == Seq::<ObjectView>::empty(),
            runtime@.machine.frames == seq![FrameView::fresh(0)],
    {
        Self::new()
    }
}

/// Makes a function of the host known to the programs: its name, the types of
/// its arguments one by one, and then the type of its result and the number
/// under which the host keeps it.
pub struct FunctionBuilder {
    pub name: String,
    pub args: Vec<Type>,
}

impl FunctionBuilder {
    pub fn new(name: String) -> (builder: Self)
        ensures
            builder.name@ == name@,
            types_view(builder.args@) == Seq::<TypeView>::empty(),
    {
        let builder = Self { name, args: Vec::new() };
        assert(types_view(builder.args@) =~= Seq::<TypeView>::empty());
        builder
    }

    /// One more argument, of any type.
    #[must_use]
    pub fn any_arg(self) -> (builder: Self)
        ensures
            builder.name@ == self.name@,
            types_view(builder.args@) == types_view(self.args@).push(TypeView::Any),
    {
        let mut builder = self;
        builder.args.push(Type::Any);
        assert(types_view(builder.args@) =~= types_view(self.args@).push(TypeView::Any));
        builder
    }

    /// One more argument, of the type that stands for `T`.
    #[must_use]
    pub fn arg<T: AsType>(self) -> (builder: Self)
        ensures
            builder.name@ == self.name@,
            types_view(builder.args@) == types_view(self.args@).push(T::spec_as_type()),
    {
        let mut builder = self;
        builder.args.push(T::as_type());
        assert(types_view(builder.args@) =~= types_view(self.args@).push(T::spec_as_type()));
        builder
    }

    /// The function as an object on `heap`. Its result has the type that
    /// stands for `O`, and the host keeps it under the number `func`.
    pub fn build_value<O: AsType>(self, heap: &mut Heap, func: usize) -> (value: Value)
        ensures
            value == Value::Object(old(heap)@.len() as usize),
            final(heap)@ == old(heap)@.push(
                ObjectView::NativeFunction {
                    meta: FunctionMetadataView {
                        name: self.name@,
                        args: types_view(self.args@),
                        output: O::spec_as_type(),
                    },
                    func,
                },
            ),
    {
        Value::object(
            heap,
            Object::NativeFunction(
                NativeFunction {
                    meta: FunctionMetadata { name: self.name, args: self.args, output: O::as_type() },
                    func,
                },
            ),
        )
    }

    /// Declares the function to the compiler of `runtime` and stores it in the
    /// slot of its variable in the top frame of the machine, which gets a frame
    /// where it has none.
    #[verifier::rlimit(40)]
    pub fn build<O: AsType>(self, runtime: &mut Runtime, func: usize)
        ensures
            final(runtime)@.chunk == old(runtime)@.chunk,
            final(runtime)@.compiler == old(runtime)@.compiler.create_var(
                self.name@,
                false,
                TypeView::Function {
                    args: types_view(self.args@),
                    output: Box::new(O::spec_as_type()),
                },
                None,
            ).0,
            final(runtime)@.machine.heap == old(runtime)@.machine.heap.push(
                ObjectView::NativeFunction {
                    meta: FunctionMetadataView {
                        name: self.name@,
                        args: types_view(self.args@),
                        output: O::spec_as_type(),
                    },
                    func,
                },
            ),
            final(runtime)@.machine.frames.len() > 0,
            final(runtime)@.machine.frames.last().slots.len() > old(
                runtime,
            )@.compiler.variables.len(),
            final(runtime)@.machine.frames.last().slots[old(runtime)@.compiler.variables.len() as int]
                == Value::Object(old(runtime)@.machine.heap.len() as usize),
    {
        let slot = runtime.compiler.add_native_func(
            self.name.clone(),
            copy_types(&self.args),
            Some(O::as_type()),
        );
        let count = runtime.compiler.variables.len();
        assert(count == runtime.compiler@.variables.len());
        assert(slot + 1 == count);
        let value = self.build_value::<O>(&mut runtime.vm.heap, func);
        if runtime.vm.frames.len() == 0 {
            let height = runtime.vm.stack.len();
            assert(height == runtime.vm@.stack.len());
            runtime.vm.push_frame();
        }
        assert(runtime.vm@.frames.len() == runtime.vm.frames@.len());
        let top = runtime.vm.frames.len() - 1;
        runtime.vm.frames[top].set_slot(slot, value);
        assert(runtime.vm@.frames.last() == runtime.vm.frames@[top as int]@);
    }
}

} // verus!
