//! The code generator: one function for each construct, which checks what the
//! construct needs and appends its code.

use crate::compiler::check::{any_function, any_instance, find_property};
use crate::compiler::rules::{
    arguments_compiled, arms_compiled, block_compiled, declaration_order, expression_compiled,
    expression_supported, expressions_supported, fields_checked, fields_compiled, fields_known,
    fields_supported, function_body_compiled, instance_compiled, items_checked, items_compiled,
    literal_compiled, operator_compiled, parameter_types, parameters_declared, program_compiled,
    program_supported, read_compiled, record_types, statement_compiled, statement_supported,
    statements_compiled, statements_supported, struct_fields, arms_supported, block_supported,
};
use crate::compiler::state::{
    ordered, patched_all, position, with_key, Build, Failure, CompileError, CompilerView, InstanceArgsType,
};
use crate::compiler::table::{built, delta, field_position, now, CompileResult, Compiler};
use crate::parser::ast::{
    BinaryExpression, Block, Expression, FuncStatement, FunctionCall, IfElseExpression,
    IndexExpression, InstanceArgs, Literal, MatchCase, MatchExpression, MatchVariant,
    NewInstanceExpression, Number, Operator, RecordStatement, Statement, StructFieldValue,
    StructStatement, VariableStatement,
};
use crate::parser::model::{
    expressions_view, field_values_view, func_args_view, lemma_block_view, lemma_expression_view,
    positioned_types_view, statement_view, statements_view, struct_fields_view, variants_view,
    StatementView,
};
use crate::shared::{Float, Positioned, Span};
use crate::typing::{
    copy_fields, copy_types, fields_view, lemma_type_view, types_view, FunctionType, RecordType,
    StructType, Type,
};
use crate::vm::chunk::{Chunk, ChunkView};
use crate::vm::op::OpCode;
use crate::vm::value::{Function, FunctionMetadata, Heap, Object, Record, Struct, Value};
use vstd::prelude::*;

verus! {

/// A list of places as integers.
pub open spec fn places(order: Seq<usize>) -> Seq<int> {
    Seq::new(order.len(), |i: int| order[i] as int)
}

impl Literal {
    /// Emits the constant and the instruction that loads it.
    pub fn compile(&self, heap: &mut Heap, span: Span, chunk: &mut Chunk)
        ensures
            final(chunk)@ == literal_compiled(
                self@,
                span,
                Build { compiler: CompilerView::fresh(), chunk: old(chunk)@, heap: old(heap)@ },
            ).chunk,
            final(heap)@ == literal_compiled(
                self@,
                span,
                Build { compiler: CompilerView::fresh(), chunk: old(chunk)@, heap: old(heap)@ },
            ).heap,
    {
        let value = match self {
            Literal::Number(Number::Float(value)) => {
                let digits = heap.put(Object::String(value.digits.clone()));
                Value::Float(Float::Literal { negative: value.negative, digits, scale: value.scale })
            },
            Literal::Number(Number::Int(value)) => Value::Integer(*value),
            Literal::Boolean(value) => Value::Boolean(*value),
            Literal::String(text) => Value::object(heap, Object::String(text.clone())),
        };
        Compiler::compile_const(chunk, span.line, value);
    }
}

/// Emits the code that reads the variable called `name`.
pub fn compile_read(name: &String, compiler: &Compiler, span: Span, chunk: &mut Chunk) -> (result:
    CompileResult<()>)
    ensures
        match read_compiled(
            name@,
            span,
            Build { compiler: compiler@, chunk: old(chunk)@, heap: Seq::empty() },
        ) {
            Ok(build) => result is Ok && final(chunk)@ == build.chunk,
            Err(failure) => result matches Err(found) && found@ == failure.error && final(chunk)@
                == old(chunk)@,
        },
{
    match compiler.get_var(span, name) {
        Ok((slot, variable)) => {
            chunk.push(span.line, OpCode::GetLocal(delta(variable.depth, compiler.scope_depth), slot));
            Ok(())
        },
        Err(error) => Err(error),
    }
}

/// Emits the instruction of an operator of arithmetic or of comparison.
pub fn compile_operator(operator: Operator, line: usize, chunk: &mut Chunk)
    ensures
        final(chunk)@ == operator_compiled(
            operator,
            line,
            Build { compiler: CompilerView::fresh(), chunk: old(chunk)@, heap: Seq::empty() },
        ).chunk,
{
    match operator {
        Operator::Add => chunk.push(line, OpCode::Add),
        Operator::Sub => chunk.push(line, OpCode::Sub),
        Operator::Mul => chunk.push(line, OpCode::Mul),
        Operator::Div => chunk.push(line, OpCode::Div),
        Operator::Equal => chunk.push(line, OpCode::Equal),
        Operator::NotEqual => {
            chunk.push(line, OpCode::Equal);
            chunk.push(line, OpCode::Negate);
        },
        Operator::LessThan => chunk.push(line, OpCode::Less),
        Operator::GreaterThan => chunk.push(line, OpCode::Greater),
        _ => {},
    }
}

/// Emits the code that reads a description from its variable and makes the
/// instance.
pub fn compile_instance(depth: usize, slot: usize, span: Span, compiler: &Compiler, chunk: &mut Chunk)
    ensures
        final(chunk)@ == instance_compiled(
            depth,
            slot,
            span,
            Build { compiler: compiler@, chunk: old(chunk)@, heap: Seq::empty() },
        ).chunk,
{
    chunk.push(span.line, OpCode::GetLocal(delta(depth, compiler.scope_depth), slot));
    chunk.push(span.line, OpCode::CreateInstance);
}

impl Expression {
    /// Compiles the expression, read at `span`: checks it and appends its code
    /// to `chunk`, its constants to the pool and the objects among them to
    /// `heap`.
    pub fn compile(&self, compiler: &mut Compiler, heap: &mut Heap, span: Span, chunk: &mut Chunk) -> (result:
        CompileResult<()>)
        requires
            expression_supported(self@),
        ensures
            built(
                expression_compiled(self@, span, now(*old(compiler), *old(chunk), *old(heap))),
                result,
                now(*final(compiler), *final(chunk), *final(heap)),
            ),
        decreases self, 1nat,
    {
        match self {
            Expression::Literal(value) => {
                value.compile(heap, span, chunk);
                Ok(())
            },
            Expression::Ident(name) => compile_read(&name.0, compiler, span, chunk),
            Expression::FunctionCall(value) => value.compile(compiler, heap, span, chunk),
            Expression::NewInstance(value) => value.compile(compiler, heap, span, chunk),
            Expression::IfElse(value) => value.compile(compiler, heap, span, chunk),
            Expression::Block(value) => value.compile(compiler, heap, span, chunk),
            Expression::Match(value) => value.compile(compiler, heap, span, chunk),
            Expression::Binary(value) => value.compile(compiler, heap, span, chunk),
            Expression::Index(value) => value.compile(compiler, heap, span, chunk),
        }
    }
}

/// Compiles the arguments of a call, each checked against the type of its
/// parameter first.
pub fn compile_arguments(
    args: &Vec<Positioned<Expression>>,
    parameters: &Vec<Type>,
    compiler: &mut Compiler,
    heap: &mut Heap,
    chunk: &mut Chunk,
) -> (result: CompileResult<()>)
    requires
        args.len() == parameters.len(),
        expressions_supported(expressions_view(args@), 0),
    ensures
        built(
            arguments_compiled(
                expressions_view(args@),
                types_view(parameters@),
                0,
                now(*old(compiler), *old(chunk), *old(heap)),
            ),
            result,
            now(*final(compiler), *final(chunk), *final(heap)),
        ),
    decreases args, 0nat,
{
    let mut i: usize = 0;
    while i < args.len()
        invariant
            i <= args.len(),
            args.len() == parameters.len(),
            expressions_supported(expressions_view(args@), i as int),
            arguments_compiled(
                expressions_view(args@),
                types_view(parameters@),
                0,
                now(*old(compiler), *old(chunk), *old(heap)),
            ) == arguments_compiled(
                expressions_view(args@),
                types_view(parameters@),
                i as int,
                now(*compiler, *chunk, *heap),
            ),
        decreases args.len() - i,
    {
        let arg = &args[i];
        let found = match arg.value.get_type(compiler, arg.span) {
            Ok(found) => found,
            Err(error) => {
                return Err(error);
            },
        };
        if !found.compare(&parameters[i]) {
            return Err(
                CompileError::TypeExpected {
                    expected: parameters[i].clone(),
                    found,
                    at: arg.span,
                },
            );
        }
        match arg.value.compile(compiler, heap, arg.span, chunk) {
            Ok(()) => {},
            Err(error) => {
                return Err(error);
            },
        }
        i += 1;
    }
    Ok(())
}

impl FunctionCall {
    /// Compiles a call: what is called, then the arguments in order, then
    /// `Call` with their number.
    pub fn compile(&self, compiler: &mut Compiler, heap: &mut Heap, span: Span, chunk: &mut Chunk) -> (result:
        CompileResult<()>)
        requires
            expression_supported(Expression::FunctionCall(*self)@),
        ensures
            built(
                expression_compiled(
                    Expression::FunctionCall(*self)@,
                    span,
                    now(*old(compiler), *old(chunk), *old(heap)),
                ),
                result,
                now(*final(compiler), *final(chunk), *final(heap)),
            ),
        decreases self, 0nat,
    {
        proof {
            lemma_expression_view(Expression::FunctionCall(*self));
        }
        let target = match self.target.value.get_type(compiler, self.target.span) {
            Ok(target) => target,
            Err(error) => {
                return Err(error);
            },
        };
        proof {
            lemma_type_view(target);
        }
        match target {
            Type::Function(function) => {
                match self.target.value.compile(compiler, heap, self.target.span, chunk) {
                    Ok(()) => {},
                    Err(error) => {
                        return Err(error);
                    },
                }
                if function.args.len() != self.args.value.len() {
                    return Err(
                        CompileError::InvalidArgumentsCount {
                            expected: function.args.len(),
                            got: self.args.value.len(),
                            function_at: None,
                            at: span,
                        },
                    );
                }
                match compile_arguments(&self.args.value, &function.args, compiler, heap, chunk) {
                    Ok(()) => {},
                    Err(error) => {
                        return Err(error);
                    },
                }
                chunk.push(span.line, OpCode::Call(self.args.value.len()));
                Ok(())
            },
            other => Err(
                CompileError::TypeExpected {
                    expected: any_function(),
                    found: other,
                    at: self.target.span,
                },
            ),
        }
    }
}

impl IfElseExpression {
    /// Compiles a conditional: the condition, a jump over the block that is
    /// taken where the condition is false, the block, and where there is an
    /// `else`, a jump over it and the code of the `else`.
    pub fn compile(&self, compiler: &mut Compiler, heap: &mut Heap, span: Span, chunk: &mut Chunk) -> (result:
        CompileResult<()>)
        requires
            expression_supported(Expression::IfElse(*self)@),
        ensures
            built(
                expression_compiled(
                    Expression::IfElse(*self)@,
                    span,
                    now(*old(compiler), *old(chunk), *old(heap)),
                ),
                result,
                now(*final(compiler), *final(chunk), *final(heap)),
            ),
        decreases self, 0nat,
    {
        proof {
            lemma_expression_view(Expression::IfElse(*self));
        }
        let found = match self.condition.value.get_type(compiler, self.condition.span) {
            Ok(found) => found,
            Err(error) => {
                return Err(error);
            },
        };
        if !matches!(found, Type::Boolean) {
            return Err(
                CompileError::TypeExpected {
                    expected: Type::Boolean,
                    found,
                    at: self.condition.span,
                },
            );
        }
        match self.condition.value.compile(compiler, heap, self.condition.span, chunk) {
            Ok(()) => {},
            Err(error) => {
                return Err(error);
            },
        }
        let start = chunk.len();
        chunk.push(span.line, OpCode::JumpIfFalse(0));
        match self.block.value.compile(compiler, heap, self.block.span, chunk) {
            Ok(()) => {},
            Err(error) => {
                return Err(error);
            },
        }
        let end = chunk.len();
        Compiler::patch_jump(chunk, start, end.wrapping_sub(1));
        match &self.else_block {
            None => Ok(()),
            Some(other) => {
                Compiler::patch_jump(chunk, start, end);
                chunk.push(span.line, OpCode::Jump(0));
                match other.value.compile(compiler, heap, other.span, chunk) {
                    Ok(()) => {},
                    Err(error) => {
                        return Err(error);
                    },
                }
                let last = chunk.len();
                Compiler::patch_jump(chunk, end, last.wrapping_sub(1));
                Ok(())
            },
        }
    }
}

/// Sets all of `jumps` to lead to `end`.
pub fn patch_jumps(chunk: &mut Chunk, jumps: &Vec<usize>, end: usize)
    ensures
        final(chunk)@ == (ChunkView {
            code: patched_all(old(chunk)@.code, jumps@, 0, end),
            ..old(chunk)@
        }),
{
    let mut i: usize = 0;
    while i < jumps.len()
        invariant
            i <= jumps.len(),
            chunk@.constants == old(chunk)@.constants,
            patched_all(old(chunk)@.code, jumps@, 0, end) == patched_all(
                chunk@.code,
                jumps@,
                i as int,
                end,
            ),
        decreases jumps.len() - i,
    {
        Compiler::patch_jump(chunk, jumps[i], end);
        i += 1;
    }
}

/// Compiles the arms of a `match`. Returns the jumps out of the arms, which
/// are still to be set.
#[verifier::rlimit(40)]
pub fn compile_arms(
    variants: &Vec<Positioned<MatchVariant>>,
    target: &Type,
    span: Span,
    compiler: &mut Compiler,
    heap: &mut Heap,
    chunk: &mut Chunk,
) -> (result: CompileResult<Vec<usize>>)
    requires
        arms_supported(variants_view(variants@), 0),
    ensures
        match arms_compiled(
            variants_view(variants@),
            0,
            target@,
            span,
            now(*old(compiler), *old(chunk), *old(heap)),
            Seq::empty(),
        ) {
            Ok((build, jumps)) => result matches Ok(found) && found@ == jumps && now(
                *final(compiler),
                *final(chunk),
                *final(heap),
            ) == build,
            Err(failure) => result matches Err(found) && found@ == failure.error && now(
                *final(compiler),
                *final(chunk),
                *final(heap),
            ) == failure.build,
        },
    decreases variants, 0nat,
{
    let mut jumps: Vec<usize> = Vec::new();
    let mut i: usize = 0;
    while i < variants.len()
        invariant
            i <= variants.len(),
            arms_supported(variants_view(variants@), i as int),
            arms_compiled(
                variants_view(variants@),
                0,
                target@,
                span,
                now(*old(compiler), *old(chunk), *old(heap)),
                Seq::empty(),
            ) == arms_compiled(
                variants_view(variants@),
                i as int,
                target@,
                span,
                now(*compiler, *chunk, *heap),
                jumps@,
            ),
        decreases variants.len() - i,
    {
        let variant = &variants[i];
        let case = &variant.value.case;
        let body = &variant.value.body;
        match &case.value {
            MatchCase::Ident(name) => {
                chunk.push(variant.span.line, OpCode::PushFrame);
                compiler.push_scope();
                let slot = compiler.create_var(
                    name.0.clone(),
                    false,
                    target.clone(),
                    Some(case.span),
                );
                chunk.push(case.span.line, OpCode::SetLocal(None, slot));
                match body.value.compile(compiler, heap, body.span, chunk) {
                    Ok(()) => {},
                    Err(error) => {
                        return Err(error);
                    },
                }
                chunk.push(variant.span.line, OpCode::Return);
                compiler.pop_scope();
                chunk.push(variant.span.line, OpCode::PopFrame);
                return Ok(jumps);
            },
            MatchCase::Value(value) => {
                let found = match value.get_type(compiler, span) {
                    Ok(found) => found,
                    Err(error) => {
                        return Err(error);
                    },
                };
                if !found.same(target) {
                    return Err(
                        CompileError::TypeExpected {
                            expected: target.clone(),
                            found,
                            at: case.span,
                        },
                    );
                }
                chunk.push(variant.span.line, OpCode::Copy);
                match value.compile(compiler, heap, case.span, chunk) {
                    Ok(()) => {},
                    Err(error) => {
                        return Err(error);
                    },
                }
                let start = chunk.len().wrapping_add(1);
                chunk.push(case.span.line, OpCode::Equal);
                chunk.push(case.span.line, OpCode::JumpIfFalse(0));
                chunk.push(case.span.line, OpCode::Pop);
                match body.value.compile(compiler, heap, body.span, chunk) {
                    Ok(()) => {},
                    Err(error) => {
                        return Err(error);
                    },
                }
                chunk.push(case.span.line, OpCode::Jump(0));
                let exit = chunk.len().wrapping_sub(1);
                Compiler::patch_jump(chunk, start, exit);
                jumps.push(exit);
            },
        }
        i += 1;
    }
    Ok(jumps)
}

impl MatchExpression {
    /// Compiles a `match`: what is matched, the arms, and then the jumps out
    /// of the arms are set to lead behind the last one.
    pub fn compile(&self, compiler: &mut Compiler, heap: &mut Heap, span: Span, chunk: &mut Chunk) -> (result:
        CompileResult<()>)
        requires
            expression_supported(Expression::Match(*self)@),
        ensures
            built(
                expression_compiled(
                    Expression::Match(*self)@,
                    span,
                    now(*old(compiler), *old(chunk), *old(heap)),
                ),
                result,
                now(*final(compiler), *final(chunk), *final(heap)),
            ),
        decreases self, 0nat,
    {
        proof {
            lemma_expression_view(Expression::Match(*self));
        }
        let target = match self.target.value.get_type(compiler, self.target.span) {
            Ok(target) => target,
            Err(error) => {
                return Err(error);
            },
        };
        match self.target.value.compile(compiler, heap, self.target.span, chunk) {
            Ok(()) => {},
            Err(error) => {
                return Err(error);
            },
        }
        let jumps = match compile_arms(&self.variants, &target, span, compiler, heap, chunk) {
            Ok(jumps) => jumps,
            Err(error) => {
                return Err(error);
            },
        };
        let end = chunk.len().wrapping_sub(1);
        patch_jumps(chunk, &jumps, end);
        Ok(())
    }
}

impl BinaryExpression {
    /// Compiles a binary expression. An assignment goes to the variable or
    /// the property on its left. `&&` and `||` leave their right side out
    /// where the left one decides. The others are checked, and then both sides
    /// and the instruction of the operator follow.
    pub fn compile(&self, compiler: &mut Compiler, heap: &mut Heap, span: Span, chunk: &mut Chunk) -> (result:
        CompileResult<()>)
        requires
            expression_supported(Expression::Binary(Box::new(*self))@),
        ensures
            built(
                expression_compiled(
                    Expression::Binary(Box::new(*self))@,
                    span,
                    now(*old(compiler), *old(chunk), *old(heap)),
                ),
                result,
                now(*final(compiler), *final(chunk), *final(heap)),
            ),
        decreases self, 1nat,
    {
        proof {
            lemma_expression_view(Expression::Binary(Box::new(*self)));
        }
        if self.operator.value == Operator::Assign {
            match &self.lhs.value {
                Expression::Ident(name) => self.assign_variable(
                    &name.0,
                    compiler,
                    heap,
                    span,
                    chunk,
                ),
                Expression::Index(index) => self.assign_property(
                    index,
                    compiler,
                    heap,
                    span,
                    chunk,
                ),
                other => other.compile(compiler, heap, self.lhs.span, chunk),
            }
        } else {
            self.compile_operation(compiler, heap, span, chunk)
        }
    }

    /// Compiles an assignment to a variable: the variable must be mutable and
    /// the value of its type; the value is followed by `SetLocal` with the
    /// depth and the slot of the variable.
    #[verifier::rlimit(40)]
    fn assign_variable(
        &self,
        name: &String,
        compiler: &mut Compiler,
        heap: &mut Heap,
        span: Span,
        chunk: &mut Chunk,
    ) -> (result: CompileResult<()>)
        requires
            expression_supported(Expression::Binary(Box::new(*self))@),
            self.operator.value == Operator::Assign,
            self.lhs.value matches Expression::Ident(ident) && ident.0 == *name,
        ensures
            built(
                expression_compiled(
                    Expression::Binary(Box::new(*self))@,
                    span,
                    now(*old(compiler), *old(chunk), *old(heap)),
                ),
                result,
                now(*final(compiler), *final(chunk), *final(heap)),
            ),
        decreases self, 0nat,
    {
        proof {
            lemma_expression_view(Expression::Binary(Box::new(*self)));
        }
        let (slot, depth, mutable, declared_at, ty) = match compiler.get_var(self.lhs.span, name) {
            Ok((slot, variable)) => (
                slot,
                variable.depth,
                variable.mutable,
                variable.span,
                variable.ty.clone(),
            ),
            Err(error) => {
                return Err(error);
            },
        };
        if !mutable {
            return Err(
                CompileError::ImmutableVariable {
                    name: name.clone(),
                    accessed_at: self.lhs.span,
                    declared_at,
                },
            );
        }
        let found = match self.rhs.value.get_type(compiler, self.rhs.span) {
            Ok(found) => found,
            Err(error) => {
                return Err(error);
            },
        };
        if !found.same(&ty) {
            return Err(CompileError::TypeExpected { expected: ty, found, at: self.rhs.span });
        }
        match self.rhs.value.compile(compiler, heap, self.rhs.span, chunk) {
            Ok(()) => {},
            Err(error) => {
                return Err(error);
            },
        }
        chunk.push(self.lhs.span.line, OpCode::SetLocal(Some(depth), slot));
        Ok(())
    }

    /// Compiles an assignment to a property: the instance, the value, and
    /// `SetProperty` with the place of the property.
    #[verifier::rlimit(40)]
    fn assign_property(
        &self,
        index: &IndexExpression,
        compiler: &mut Compiler,
        heap: &mut Heap,
        span: Span,
        chunk: &mut Chunk,
    ) -> (result: CompileResult<()>)
        requires
            expression_supported(Expression::Binary(Box::new(*self))@),
            self.operator.value == Operator::Assign,
            self.lhs.value matches Expression::Index(inner) && *inner == *index,
        ensures
            built(
                expression_compiled(
                    Expression::Binary(Box::new(*self))@,
                    span,
                    now(*old(compiler), *old(chunk), *old(heap)),
                ),
                result,
                now(*final(compiler), *final(chunk), *final(heap)),
            ),
        decreases self, 0nat,
    {
        proof {
            lemma_expression_view(Expression::Binary(Box::new(*self)));
            lemma_expression_view(self.lhs.value);
            assert(expression_supported(self.lhs.value@));
            assert(expression_supported(index.target.value@));
        }
        let target = match index.target.value.get_type(compiler, index.target.span) {
            Ok(target) => target,
            Err(error) => {
                return Err(error);
            },
        };
        match index.target.value.compile(compiler, heap, index.target.span, chunk) {
            Ok(()) => {},
            Err(error) => {
                return Err(error);
            },
        }
        let place = match find_property(&target, index.target.span, &index.index) {
            Ok((place, _)) => place,
            Err(error) => {
                return Err(error);
            },
        };
        match self.rhs.value.compile(compiler, heap, self.rhs.span, chunk) {
            Ok(()) => {},
            Err(error) => {
                return Err(error);
            },
        }
        chunk.push(index.index.span.line, OpCode::SetProperty(place));
        Ok(())
    }

    /// Compiles arithmetic, a comparison, `&&` or `||`.
    #[verifier::rlimit(40)]
    fn compile_operation(&self, compiler: &mut Compiler, heap: &mut Heap, span: Span, chunk: &mut Chunk) -> (result:
        CompileResult<()>)
        requires
            expression_supported(Expression::Binary(Box::new(*self))@),
            self.operator.value != Operator::Assign,
        ensures
            built(
                expression_compiled(
                    Expression::Binary(Box::new(*self))@,
                    span,
                    now(*old(compiler), *old(chunk), *old(heap)),
                ),
                result,
                now(*final(compiler), *final(chunk), *final(heap)),
            ),
        decreases self, 0nat,
    {
        proof {
            lemma_expression_view(Expression::Binary(Box::new(*self)));
        }
        let operator = self.operator.value;
        match self.get_type(compiler, span) {
            Ok(_) => {},
            Err(error) => {
                return Err(error);
            },
        }
        match self.lhs.value.compile(compiler, heap, self.lhs.span, chunk) {
            Ok(()) => {},
            Err(error) => {
                return Err(error);
            },
        }
        let start = chunk.len();
        if operator == Operator::And {
            chunk.push(span.line, OpCode::JumpIfFalse(0));
            chunk.push(span.line, OpCode::Pop);
            match self.rhs.value.compile(compiler, heap, self.rhs.span, chunk) {
                Ok(()) => {},
                Err(error) => {
                    return Err(error);
                },
            }
            let end = chunk.len();
            Compiler::patch_jump(chunk, start, end);
        } else if operator == Operator::Or {
            chunk.push(span.line, OpCode::JumpIfFalse(0));
            chunk.push(span.line, OpCode::Jump(0));
            chunk.push(span.line, OpCode::Pop);
            match self.rhs.value.compile(compiler, heap, self.rhs.span, chunk) {
                Ok(()) => {},
                Err(error) => {
                    return Err(error);
                },
            }
            let end = chunk.len();
            Compiler::patch_jump(chunk, start, start.wrapping_add(1));
            Compiler::patch_jump(chunk, start.wrapping_add(1), end);
        } else {
            match self.rhs.value.compile(compiler, heap, self.rhs.span, chunk) {
                Ok(()) => {},
                Err(error) => {
                    return Err(error);
                },
            }
            compile_operator(operator, self.operator.span.line, chunk);
        }
        Ok(())
    }
}

impl IndexExpression {
    /// Compiles the reading of a property: the instance, then `GetProperty`
    /// with the place of the property.
    pub fn compile(&self, compiler: &mut Compiler, heap: &mut Heap, span: Span, chunk: &mut Chunk) -> (result:
        CompileResult<()>)
        requires
            expression_supported(Expression::Index(Box::new(*self))@),
        ensures
            built(
                expression_compiled(
                    Expression::Index(Box::new(*self))@,
                    span,
                    now(*old(compiler), *old(chunk), *old(heap)),
                ),
                result,
                now(*final(compiler), *final(chunk), *final(heap)),
            ),
        decreases self, 0nat,
    {
        proof {
            lemma_expression_view(Expression::Index(Box::new(*self)));
        }
        let target = match self.target.value.get_type(compiler, self.target.span) {
            Ok(target) => target,
            Err(error) => {
                return Err(error);
            },
        };
        match self.target.value.compile(compiler, heap, self.target.span, chunk) {
            Ok(()) => {},
            Err(error) => {
                return Err(error);
            },
        }
        match find_property(&target, self.target.span, &self.index) {
            Ok((place, _)) => {
                chunk.push(self.index.span.line, OpCode::GetProperty(place));
                Ok(())
            },
            Err(error) => Err(error),
        }
    }
}

/// Checks the values of a record against the types of its fields.
pub fn check_items(given: &Vec<Positioned<Expression>>, items: &Vec<Type>, compiler: &Compiler) -> (result:
    CompileResult<()>)
    requires
        given.len() == items.len(),
    ensures
        match items_checked(expressions_view(given@), types_view(items@), 0, compiler@) {
            Ok(_) => result is Ok,
            Err(error) => result matches Err(found) && found@ == error,
        },
    decreases given, 0nat,
{
    let mut i: usize = 0;
    while i < given.len()
        invariant
            i <= given.len(),
            given.len() == items.len(),
            items_checked(expressions_view(given@), types_view(items@), 0, compiler@)
                == items_checked(expressions_view(given@), types_view(items@), i as int, compiler@),
        decreases given.len() - i,
    {
        let value = &given[i];
        let found = match value.value.get_type(compiler, value.span) {
            Ok(found) => found,
            Err(error) => {
                return Err(error);
            },
        };
        if !found.compare(&items[i]) {
            return Err(
                CompileError::TypeExpected { expected: items[i].clone(), found, at: value.span },
            );
        }
        i += 1;
    }
    Ok(())
}

/// Compiles expressions one after the other.
pub fn compile_items(
    given: &Vec<Positioned<Expression>>,
    compiler: &mut Compiler,
    heap: &mut Heap,
    chunk: &mut Chunk,
) -> (result: CompileResult<()>)
    requires
        expressions_supported(expressions_view(given@), 0),
    ensures
        built(
            items_compiled(expressions_view(given@), 0, now(*old(compiler), *old(chunk), *old(heap))),
            result,
            now(*final(compiler), *final(chunk), *final(heap)),
        ),
    decreases given, 0nat,
{
    let mut i: usize = 0;
    while i < given.len()
        invariant
            i <= given.len(),
            expressions_supported(expressions_view(given@), i as int),
            items_compiled(expressions_view(given@), 0, now(*old(compiler), *old(chunk), *old(heap)))
                == items_compiled(expressions_view(given@), i as int, now(*compiler, *chunk, *heap)),
        decreases given.len() - i,
    {
        match given[i].value.compile(compiler, heap, given[i].span, chunk) {
            Ok(()) => {},
            Err(error) => {
                return Err(error);
            },
        }
        i += 1;
    }
    Ok(())
}

/// The key by which the given fields are ordered: for each its place in the
/// declaration.
pub open spec fn field_keys(
    given: Seq<Positioned<StructFieldValue>>,
    fields: Seq<(String, Type)>,
) -> Seq<int> {
    Seq::new(
        given.len(),
        |i: int|
            match position(fields_view(fields), given[i].value.name.value.0@) {
                Some(place) => place,
                None => -1,
            },
    )
}

/// Looks every given field up in the declaration. Returns the place of each.
#[verifier::rlimit(40)]
pub fn known_fields(
    given: &Vec<Positioned<StructFieldValue>>,
    structure: &StructType,
    defined_at: Option<Span>,
) -> (result: CompileResult<Vec<usize>>)
    ensures
        match fields_known(
            field_values_view(given@),
            structure.name@,
            fields_view(structure.fields@),
            defined_at,
            0,
        ) {
            Ok(_) => result matches Ok(keys) && places(keys@) == field_keys(
                given@,
                structure.fields@,
            ),
            Err(error) => result matches Err(found) && found@ == error,
        },
{
    let mut keys: Vec<usize> = Vec::new();
    let mut i: usize = 0;
    while i < given.len()
        invariant
            i <= given.len(),
            keys.len() == i,
            forall|j: int| 0 <= j < i ==> keys[j] as int == field_keys(given@, structure.fields@)[j],
            fields_known(
                field_values_view(given@),
                structure.name@,
                fields_view(structure.fields@),
                defined_at,
                0,
            ) == fields_known(
                field_values_view(given@),
                structure.name@,
                fields_view(structure.fields@),
                defined_at,
                i as int,
            ),
        decreases given.len() - i,
    {
        match field_position(&structure.fields, &given[i].value.name.value.0) {
            Some(place) => {
                keys.push(place);
            },
            None => {
                return Err(
                    CompileError::PropertyNotExist {
                        target: structure.name.clone(),
                        property: given[i].value.name.value.0.clone(),
                        defined_at,
                        at: given[i].span,
                    },
                );
            },
        }
        i += 1;
    }
    assert(places(keys@) =~= field_keys(given@, structure.fields@));
    Ok(keys)
}

/// The places of `keys` ordered by key, and by place where the keys are equal.
#[verifier::rlimit(40)]
pub fn sort_order(keys: &Vec<usize>, bound: usize) -> (order: Vec<usize>)
    ensures
        places(order@) == ordered(places(keys@), bound as int),
        forall|i: int| 0 <= i < order.len() ==> order[i] < keys.len(),
{
    let mut order: Vec<usize> = Vec::new();
    let mut key: usize = 0;
    while key < bound
        invariant
            key <= bound,
            places(order@) == ordered(places(keys@), key as int),
            forall|i: int| 0 <= i < order.len() ==> order[i] < keys.len(),
        decreases bound - key,
    {
        let mut j: usize = 0;
        while j < keys.len()
            invariant
                j <= keys.len(),
                key < bound,
                places(order@) == ordered(places(keys@), key as int) + with_key(
                    places(keys@),
                    key as int,
                    j as int,
                ),
                forall|i: int| 0 <= i < order.len() ==> order[i] < keys.len(),
            decreases keys.len() - j,
        {
            let ghost before = places(order@);
            if keys[j] == key {
                order.push(j);
                assert(places(order@) =~= before.push(j as int));
            }
            assert(places(order@) =~= ordered(places(keys@), key as int) + with_key(
                places(keys@),
                key as int,
                j + 1,
            ));
            j += 1;
        }
        assert(places(keys@).len() == keys.len());
        key += 1;
    }
    order
}

/// Checks the values of the given fields, taken in `order`, against the types
/// of the declared fields.
#[verifier::rlimit(40)]
pub fn check_fields(
    given: &Vec<Positioned<StructFieldValue>>,
    order: &Vec<usize>,
    fields: &Vec<(String, Type)>,
    compiler: &Compiler,
) -> (result: CompileResult<()>)
    requires
        forall|i: int| 0 <= i < order.len() ==> order[i] < given.len(),
    ensures
        match fields_checked(
            field_values_view(given@),
            places(order@),
            fields_view(fields@),
            0,
            compiler@,
        ) {
            Ok(_) => result is Ok,
            Err(error) => result matches Err(found) && found@ == error,
        },
    decreases given, 0nat,
{
    let mut i: usize = 0;
    while i < order.len() && i < fields.len()
        invariant
            forall|k: int| 0 <= k < order.len() ==> order[k] < given.len(),
            fields_checked(
                field_values_view(given@),
                places(order@),
                fields_view(fields@),
                0,
                compiler@,
            ) == fields_checked(
                field_values_view(given@),
                places(order@),
                fields_view(fields@),
                i as int,
                compiler@,
            ),
        decreases order.len() - i,
    {
        let value = &given[order[i]].value.value;
        let found = match value.value.get_type(compiler, value.span) {
            Ok(found) => found,
            Err(error) => {
                return Err(error);
            },
        };
        if !found.compare(&fields[i].1) {
            return Err(
                CompileError::TypeExpected { expected: fields[i].1.clone(), found, at: value.span },
            );
        }
        i += 1;
    }
    Ok(())
}

/// Compiles the values of the given fields, taken in `order`.
#[verifier::rlimit(40)]
pub fn compile_fields(
    given: &Vec<Positioned<StructFieldValue>>,
    order: &Vec<usize>,
    compiler: &mut Compiler,
    heap: &mut Heap,
    chunk: &mut Chunk,
) -> (result: CompileResult<()>)
    requires
        forall|i: int| 0 <= i < order.len() ==> order[i] < given.len(),
        fields_supported(field_values_view(given@), 0),
    ensures
        built(
            fields_compiled(
                field_values_view(given@),
                places(order@),
                0,
                now(*old(compiler), *old(chunk), *old(heap)),
            ),
            result,
            now(*final(compiler), *final(chunk), *final(heap)),
        ),
    decreases given, 0nat,
{
    let mut i: usize = 0;
    while i < order.len()
        invariant
            i <= order.len(),
            forall|k: int| 0 <= k < order.len() ==> order[k] < given.len(),
            fields_supported(field_values_view(given@), 0),
            fields_compiled(
                field_values_view(given@),
                places(order@),
                0,
                now(*old(compiler), *old(chunk), *old(heap)),
            ) == fields_compiled(
                field_values_view(given@),
                places(order@),
                i as int,
                now(*compiler, *chunk, *heap),
            ),
        decreases order.len() - i,
    {
        let value = &given[order[i]].value.value;
        proof {
            lemma_field_supported(field_values_view(given@), 0, order[i as int] as int);
        }
        match value.value.compile(compiler, heap, value.span, chunk) {
            Ok(()) => {},
            Err(error) => {
                return Err(error);
            },
        }
        i += 1;
    }
    Ok(())
}

/// Where the fields from `from` on are supported, each of them is.
pub proof fn lemma_field_supported(
    fields: Seq<Positioned<crate::parser::model::StructFieldValueView>>,
    from: int,
    at: int,
)
    requires
        fields_supported(fields, from),
        0 <= from <= at < fields.len(),
    ensures
        expression_supported(fields[at].value.value.value),
    decreases at - from,
{
    if from < at {
        lemma_field_supported(fields, from + 1, at);
    }
}

impl NewInstanceExpression {
    /// Compiles the making of an instance: the values of the fields in the
    /// order of the declaration, the description, and `CreateInstance`.
    pub fn compile(&self, compiler: &mut Compiler, heap: &mut Heap, span: Span, chunk: &mut Chunk) -> (result:
        CompileResult<()>)
        requires
            expression_supported(Expression::NewInstance(*self)@),
        ensures
            built(
                expression_compiled(
                    Expression::NewInstance(*self)@,
                    span,
                    now(*old(compiler), *old(chunk), *old(heap)),
                ),
                result,
                now(*final(compiler), *final(chunk), *final(heap)),
            ),
        decreases self, 0nat,
    {
        proof {
            lemma_expression_view(Expression::NewInstance(*self));
        }
        let (slot, depth, defined_at, ty) = match compiler.get_var(
            self.target.span,
            &self.target.value.0,
        ) {
            Ok((slot, variable)) => (slot, variable.depth, variable.span, variable.ty.clone()),
            Err(error) => {
                return Err(error);
            },
        };
        proof {
            lemma_type_view(ty);
        }
        match ty {
            Type::Record(record) => match &self.args.value {
                InstanceArgs::Record(given) => {
                    if given.len() != record.fields.len() {
                        return Err(
                            CompileError::InvalidArgumentsCount {
                                expected: record.fields.len(),
                                got: given.len(),
                                function_at: defined_at,
                                at: span,
                            },
                        );
                    }
                    match check_items(given, &record.fields, compiler) {
                        Ok(()) => {},
                        Err(error) => {
                            return Err(error);
                        },
                    }
                    match compile_items(given, compiler, heap, chunk) {
                        Ok(()) => {},
                        Err(error) => {
                            return Err(error);
                        },
                    }
                    compile_instance(depth, slot, span, compiler, chunk);
                    Ok(())
                },
                InstanceArgs::Struct(_) => Err(
                    CompileError::InvalidInstanceArgs {
                        expected: InstanceArgsType::Record,
                        got: InstanceArgsType::Struct,
                        instance_at: defined_at,
                        at: self.args.span,
                    },
                ),
            },
            Type::Struct(structure) => match &self.args.value {
                InstanceArgs::Struct(given) => {
                    let keys = match known_fields(given, &structure, defined_at) {
                        Ok(keys) => keys,
                        Err(error) => {
                            return Err(error);
                        },
                    };
                    let order = sort_order(&keys, structure.fields.len());
                    assert(field_keys(given@, structure.fields@) =~= Seq::new(
                        field_values_view(given@).len(),
                        |i: int|
                            match position(
                                fields_view(structure.fields@),
                                field_values_view(given@)[i].value.name.value,
                            ) {
                                Some(place) => place,
                                None => -1,
                            },
                    ));
                    assert(places(order@) == declaration_order(
                        field_values_view(given@),
                        fields_view(structure.fields@),
                    ));
                    match check_fields(given, &order, &structure.fields, compiler) {
                        Ok(()) => {},
                        Err(error) => {
                            return Err(error);
                        },
                    }
                    match compile_fields(given, &order, compiler, heap, chunk) {
                        Ok(()) => {},
                        Err(error) => {
                            return Err(error);
                        },
                    }
                    compile_instance(depth, slot, span, compiler, chunk);
                    Ok(())
                },
                InstanceArgs::Record(_) => Err(
                    CompileError::InvalidInstanceArgs {
                        expected: InstanceArgsType::Struct,
                        got: InstanceArgsType::Record,
                        instance_at: defined_at,
                        at: self.args.span,
                    },
                ),
            },
            other => Err(
                CompileError::OneOfTypeExpected {
                    expected: any_instance(),
                    found: other,
                    at: self.target.span,
                },
            ),
        }
    }
}

/// Compiles statements one after the other.
pub fn compile_statements(
    statements: &Vec<Positioned<Statement>>,
    compiler: &mut Compiler,
    heap: &mut Heap,
    chunk: &mut Chunk,
) -> (result: CompileResult<()>)
    requires
        statements_supported(statements_view(statements@), 0),
    ensures
        built(
            statements_compiled(
                statements_view(statements@),
                0,
                now(*old(compiler), *old(chunk), *old(heap)),
            ),
            result,
            now(*final(compiler), *final(chunk), *final(heap)),
        ),
    decreases statements, 0nat,
{
    let mut i: usize = 0;
    while i < statements.len()
        invariant
            i <= statements.len(),
            statements_supported(statements_view(statements@), i as int),
            statements_compiled(
                statements_view(statements@),
                0,
                now(*old(compiler), *old(chunk), *old(heap)),
            ) == statements_compiled(
                statements_view(statements@),
                i as int,
                now(*compiler, *chunk, *heap),
            ),
        decreases statements.len() - i,
    {
        match statements[i].value.compile(compiler, heap, statements[i].span, chunk) {
            Ok(()) => {},
            Err(error) => {
                return Err(error);
            },
        }
        i += 1;
    }
    Ok(())
}

impl Block {
    /// Compiles a block in a frame and a scope of its own.
    pub fn compile(&self, compiler: &mut Compiler, heap: &mut Heap, span: Span, chunk: &mut Chunk) -> (result:
        CompileResult<()>)
        requires
            block_supported(self@),
        ensures
            built(
                block_compiled(self@, span, now(*old(compiler), *old(chunk), *old(heap))),
                result,
                now(*final(compiler), *final(chunk), *final(heap)),
            ),
        decreases self, 0nat,
    {
        proof {
            lemma_block_view(*self);
        }
        chunk.push(span.line, OpCode::PushFrame);
        compiler.push_scope();
        match compile_statements(&self.statements, compiler, heap, chunk) {
            Ok(()) => {},
            Err(error) => {
                return Err(error);
            },
        }
        if let Some(statement) = &self.return_statement {
            match statement.value.get_type(compiler, statement.span) {
                Ok(_) => {},
                Err(error) => {
                    return Err(error);
                },
            }
            match statement.value.compile(compiler, heap, statement.span, chunk) {
                Ok(()) => {},
                Err(error) => {
                    return Err(error);
                },
            }
            chunk.push(span.line, OpCode::Return);
        }
        compiler.pop_scope();
        chunk.push(span.line, OpCode::PopFrame);
        Ok(())
    }

    /// Compiles the body of a function, which ends in `Halt`. Returns the type
    /// of what the body gives.
    pub fn compile_body(&self, body_at: Span, compiler: &mut Compiler, heap: &mut Heap, chunk: &mut Chunk) -> (result:
        CompileResult<Type>)
        requires
            block_supported(self@),
        ensures
            match function_body_compiled(
                self@,
                body_at,
                now(*old(compiler), *old(chunk), *old(heap)),
            ) {
                Ok((build, ty)) => result matches Ok(found) && found@ == ty && now(
                    *final(compiler),
                    *final(chunk),
                    *final(heap),
                ) == build,
                Err(failure) => result matches Err(found) && found@ == failure.error && now(
                    *final(compiler),
                    *final(chunk),
                    *final(heap),
                ) == failure.build,
            },
        decreases self, 0nat,
    {
        proof {
            lemma_block_view(*self);
        }
        match compile_statements(&self.statements, compiler, heap, chunk) {
            Ok(()) => {},
            Err(error) => {
                return Err(error);
            },
        }
        let mut output = Type::Nothing;
        if let Some(statement) = &self.return_statement {
            output = match statement.value.get_type(compiler, statement.span) {
                Ok(found) => found,
                Err(error) => {
                    return Err(error);
                },
            };
            match statement.value.compile(compiler, heap, statement.span, chunk) {
                Ok(()) => {},
                Err(error) => {
                    return Err(error);
                },
            }
            chunk.push(body_at.line, OpCode::Return);
        }
        compiler.pop_scope();
        chunk.push(0, OpCode::Halt);
        Ok(output)
    }
}

impl VariableStatement {
    /// Compiles a declaration: the value, and `SetLocal` into the slot of the
    /// variable.
    pub fn compile(&self, compiler: &mut Compiler, heap: &mut Heap, span: Span, chunk: &mut Chunk) -> (result:
        CompileResult<()>)
        requires
            statement_supported(Statement::Variable(*self)@),
        ensures
            built(
                statement_compiled(
                    Statement::Variable(*self)@,
                    span,
                    now(*old(compiler), *old(chunk), *old(heap)),
                ),
                result,
                now(*final(compiler), *final(chunk), *final(heap)),
            ),
        decreases self, 0nat,
    {
        let ty = match self.value.value.get_type(compiler, self.value.span) {
            Ok(ty) => ty,
            Err(error) => {
                return Err(error);
            },
        };
        let slot = compiler.get_or_create_var(
            self.name.value.0.clone(),
            ty,
            self.mutable.value,
            Some(span),
        );
        match self.value.value.compile(compiler, heap, self.value.span, chunk) {
            Ok(()) => {},
            Err(error) => {
                return Err(error);
            },
        }
        chunk.push(self.value.span.line, OpCode::SetLocal(None, slot));
        Ok(())
    }
}

impl RecordStatement {
    /// The types of the fields.
    pub fn types(&self) -> (types: Vec<Type>)
        ensures
            types_view(types@) == record_types(positioned_types_view(self.fields.value@)),
    {
        let mut types: Vec<Type> = Vec::new();
        let mut i: usize = 0;
        while i < self.fields.value.len()
            invariant
                i <= self.fields.value.len(),
                types.len() == i,
                forall|j: int| 0 <= j < i ==> types[j]@ == self.fields.value[j].value@,
            decreases self.fields.value.len() - i,
        {
            types.push(self.fields.value[i].value.clone());
            i += 1;
        }
        assert(types_view(types@) =~= record_types(positioned_types_view(self.fields.value@)));
        types
    }

    /// Compiles the declaration of a record: its description becomes a
    /// constant, stored in a new variable that cannot be assigned to.
    pub fn compile(&self, compiler: &mut Compiler, heap: &mut Heap, span: Span, chunk: &mut Chunk) -> (result:
        CompileResult<()>)
        ensures
            built(
                statement_compiled(
                    Statement::Record(*self)@,
                    span,
                    now(*old(compiler), *old(chunk), *old(heap)),
                ),
                result,
                now(*final(compiler), *final(chunk), *final(heap)),
            ),
    {
        let fields = self.types();
        let ty = Type::Record(
            RecordType { name: self.name.value.0.clone(), fields: copy_types(&fields) },
        );
        proof {
            lemma_type_view(ty);
        }
        let variable = compiler.create_var(self.name.value.0.clone(), false, ty, Some(span));
        Compiler::define(
            chunk,
            heap,
            span.line,
            Object::Record(Record { name: self.name.value.0.clone(), fields }),
            variable,
        );
        Ok(())
    }
}

impl StructStatement {
    /// The names and types of the fields.
    pub fn named_types(&self) -> (fields: Vec<(String, Type)>)
        ensures
            fields_view(fields@) == struct_fields(struct_fields_view(self.fields.value@)),
    {
        let mut fields: Vec<(String, Type)> = Vec::new();
        let mut i: usize = 0;
        while i < self.fields.value.len()
            invariant
                i <= self.fields.value.len(),
                fields.len() == i,
                forall|j: int|
                    0 <= j < i ==> fields[j].0@ == self.fields.value[j].value.name.value.0@
                        && fields[j].1@ == self.fields.value[j].value.ty.value@,
            decreases self.fields.value.len() - i,
        {
            let field = &self.fields.value[i].value;
            fields.push((field.name.value.0.clone(), field.ty.value.clone()));
            i += 1;
        }
        assert(fields_view(fields@) =~= struct_fields(struct_fields_view(self.fields.value@)));
        fields
    }

    /// Compiles the declaration of a struct, as that of a record.
    pub fn compile(&self, compiler: &mut Compiler, heap: &mut Heap, span: Span, chunk: &mut Chunk) -> (result:
        CompileResult<()>)
        ensures
            built(
                statement_compiled(
                    Statement::Struct(*self)@,
                    span,
                    now(*old(compiler), *old(chunk), *old(heap)),
                ),
                result,
                now(*final(compiler), *final(chunk), *final(heap)),
            ),
    {
        let fields = self.named_types();
        let ty = Type::Struct(
            StructType { name: self.name.value.0.clone(), fields: copy_fields(&fields) },
        );
        proof {
            lemma_type_view(ty);
        }
        let variable = compiler.create_var(self.name.value.0.clone(), false, ty, Some(span));
        Compiler::define(
            chunk,
            heap,
            span.line,
            Object::Struct(Struct { name: self.name.value.0.clone(), fields }),
            variable,
        );
        Ok(())
    }
}

impl FuncStatement {
    /// The table for the body, and the types of the parameters.
    pub fn scope(&self) -> (made: (Compiler, Vec<Type>))
        ensures
            made.0@ == parameters_declared(
                func_args_view(self.args.value@),
                0,
                CompilerView::fresh().push_scope(),
            ),
            types_view(made.1@) == parameter_types(func_args_view(self.args.value@)),
    {
        let mut inner = Compiler::new();
        inner.push_scope();
        let mut types: Vec<Type> = Vec::new();
        let mut i: usize = 0;
        while i < self.args.value.len()
            invariant
                i <= self.args.value.len(),
                types.len() == i,
                forall|j: int| 0 <= j < i ==> types[j]@ == self.args.value[j].value.ty.value@,
                parameters_declared(
                    func_args_view(self.args.value@),
                    0,
                    CompilerView::fresh().push_scope(),
                ) == parameters_declared(func_args_view(self.args.value@), i as int, inner@),
            decreases self.args.value.len() - i,
        {
            let arg = &self.args.value[i];
            types.push(arg.value.ty.value.clone());
            inner.create_var(
                arg.value.name.value.0.clone(),
                true,
                arg.value.ty.value.clone(),
                Some(arg.span),
            );
            i += 1;
        }
        assert(types_view(types@) =~= parameter_types(func_args_view(self.args.value@)));
        (inner, types)
    }

    /// Compiles the declaration of a function. The body is compiled on its
    /// own, with a table that holds the parameters and the function itself and
    /// nothing else; what it gives must have the type that the function
    /// declares. The function becomes a constant, stored in a new variable that
    /// cannot be assigned to.
    pub fn compile(&self, compiler: &mut Compiler, heap: &mut Heap, span: Span, chunk: &mut Chunk) -> (result:
        CompileResult<()>)
        requires
            statement_supported(Statement::Func(*self)@),
        ensures
            built(
                statement_compiled(
                    Statement::Func(*self)@,
                    span,
                    now(*old(compiler), *old(chunk), *old(heap)),
                ),
                result,
                now(*final(compiler), *final(chunk), *final(heap)),
            ),
        decreases self, 0nat,
    {
        let (mut inner, args) = self.scope();
        let output = match &self.output_type {
            Some(output) => output.value.clone(),
            None => Type::Nothing,
        };
        let ty = Type::Function(
            FunctionType { args: copy_types(&args), output_type: Box::new(output.clone()) },
        );
        proof {
            lemma_type_view(ty);
        }
        let variable = compiler.create_var(self.name.value.0.clone(), false, ty.clone(), Some(span));
        inner.create_var(self.name.value.0.clone(), false, ty, Some(span));
        let mut body = Chunk::new();
        let found = match self.body.value.compile_body(self.body.span, &mut inner, heap, &mut body) {
            Ok(found) => found,
            Err(error) => {
                return Err(error);
            },
        };
        if !found.same(&output) {
            return Err(CompileError::TypeExpected { expected: output, found, at: span });
        }
        Compiler::define(
            chunk,
            heap,
            span.line,
            Object::Function(
                Function {
                    meta: FunctionMetadata { name: self.name.value.0.clone(), args, output },
                    chunk: body,
                },
            ),
            variable,
        );
        Ok(())
    }
}

impl Statement {
    /// Compiles the statement, read at `span`.
    pub fn compile(&self, compiler: &mut Compiler, heap: &mut Heap, span: Span, chunk: &mut Chunk) -> (result:
        CompileResult<()>)
        requires
            statement_supported(self@),
        ensures
            built(
                statement_compiled(self@, span, now(*old(compiler), *old(chunk), *old(heap))),
                result,
                now(*final(compiler), *final(chunk), *final(heap)),
            ),
        decreases self, 1nat,
    {
        match self {
            Statement::Variable(value) => value.compile(compiler, heap, span, chunk),
            Statement::Struct(value) => value.compile(compiler, heap, span, chunk),
            Statement::Record(value) => value.compile(compiler, heap, span, chunk),
            Statement::Func(value) => value.compile(compiler, heap, span, chunk),
            Statement::Expression(value) => value.compile(compiler, heap, span, chunk),
            Statement::ForIn(_) => Ok(()),
            Statement::WhileLoop(_) => Ok(()),
        }
    }
}

/// The view of the expression that may end a program.
pub open spec fn ending_view(statement: Option<&Positioned<Statement>>) -> Option<
    Positioned<StatementView>,
> {
    match statement {
        Some(statement) => Some(statement_view(*statement)),
        None => None,
    }
}

impl Compiler {
    /// Compiles a program: its statements, and the expression that may end it
    /// and gives its value. The code ends in `Halt`. The variables that the
    /// program declares stay in the table, so that a program compiled later
    /// can use them.
    pub fn compile(
        &mut self,
        heap: &mut Heap,
        block: &Vec<Positioned<Statement>>,
        return_statement: Option<&Positioned<Statement>>,
    ) -> (result: CompileResult<Chunk>)
        requires
            program_supported(statements_view(block@), ending_view(return_statement)),
        ensures
            match program_compiled(
                statements_view(block@),
                ending_view(return_statement),
                old(self)@,
                old(heap)@,
            ) {
                Ok(build) => result matches Ok(chunk) && now(*final(self), chunk, *final(heap))
                    == build,
                Err(failure) => result matches Err(found) && found@ == failure.error
                    && final(self)@ == failure.build.compiler && final(heap)@ == failure.build.heap,
            },
    {
        let mut chunk = Chunk::new();
        match compile_statements(block, self, heap, &mut chunk) {
            Ok(()) => {},
            Err(error) => {
                return Err(error);
            },
        }
        if let Some(statement) = return_statement {
            match statement.value.compile(self, heap, statement.span, &mut chunk) {
                Ok(()) => {},
                Err(error) => {
                    return Err(error);
                },
            }
            chunk.push(statement.span.line, OpCode::Return);
        }
        chunk.push(0, OpCode::Halt);
        Ok(chunk)
    }
}

} // verus!
