//! What the compiler makes of each construct: the type it finds, the code it
//! emits and the error it ends with, as functions on mathematical values.

use crate::compiler::state::{
    depth_delta, ordered, position, Build, CompileErrorView, CompilerView, Failure,
    InstanceArgsType,
};
use crate::parser::ast::Operator;
use crate::parser::model::{
    BlockView, ExpressionView, FuncStatementView, IndexKindView, InstanceArgsView, LiteralView,
    MatchCaseView, MatchVariantView, StatementView, StructFieldValueView, TypedNameView,
};
use crate::shared::{Float, Positioned, Span};
use crate::text::decimal;
use crate::typing::{Type, TypeView};
use crate::vm::chunk::ChunkView;
use crate::vm::op::OpCode;
use crate::vm::value::{FunctionMetadataView, ObjectView, Value};
use vstd::prelude::*;

verus! {

/// The type that stands for every function in an error.
pub open spec fn some_function() -> TypeView {
    TypeView::Function { args: Seq::empty(), output: Box::new(TypeView::Nothing) }
}

/// The types that stand for every record and every struct in an error.
pub open spec fn record_or_struct() -> Seq<TypeView> {
    seq![
        TypeView::Record { name: Seq::empty(), items: Seq::empty() },
        TypeView::Struct { name: Seq::empty(), fields: Seq::empty() },
    ]
}

/// Whether an operator is one of arithmetic or of order, which take numbers.
pub open spec fn takes_numbers(operator: Operator) -> bool {
    operator == Operator::Add || operator == Operator::Sub || operator == Operator::Mul
        || operator == Operator::Div || operator == Operator::GreaterThan || operator
        == Operator::LessThan
}

/// Whether an operator gives a boolean whatever it compares.
pub open spec fn gives_boolean(operator: Operator) -> bool {
    operator == Operator::Equal || operator == Operator::GreaterThan || operator
        == Operator::LessThan || operator == Operator::NotEqual
}

/// The type of a literal.
pub open spec fn literal_type(literal: LiteralView) -> TypeView {
    match literal {
        LiteralView::Integer(_) => TypeView::Integer,
        LiteralView::Float(_) => TypeView::Float,
        LiteralView::String(_) => TypeView::String,
        LiteralView::Boolean(_) => TypeView::Boolean,
    }
}

/// The type of the property `index` of a value of type `target`, with the place
/// of the property among the fields.
pub open spec fn property_of(
    target: TypeView,
    target_at: Span,
    index: Positioned<IndexKindView>,
) -> Result<(usize, TypeView), CompileErrorView> {
    match target {
        TypeView::Record { name, items } => match index.value {
            IndexKindView::Number(place) => if place < items.len() {
                Ok((place, items[place as int]))
            } else {
                Err(
                    CompileErrorView::PropertyNotExist {
                        target: name,
                        property: decimal(place as nat),
                        defined_at: None,
                        at: index.span,
                    },
                )
            },
            IndexKindView::Ident(_) => Err(
                CompileErrorView::InvalidInstanceArgs {
                    expected: InstanceArgsType::Record,
                    got: InstanceArgsType::Struct,
                    instance_at: None,
                    at: index.span,
                },
            ),
        },
        TypeView::Struct { name, fields } => match index.value {
            IndexKindView::Ident(property) => match position(fields, property) {
                Some(place) => Ok((place as usize, fields[place].1)),
                None => Err(
                    CompileErrorView::PropertyNotExist {
                        target: name,
                        property,
                        defined_at: None,
                        at: index.span,
                    },
                ),
            },
            IndexKindView::Number(_) => Err(
                CompileErrorView::InvalidInstanceArgs {
                    expected: InstanceArgsType::Struct,
                    got: InstanceArgsType::Record,
                    instance_at: None,
                    at: index.span,
                },
            ),
        },
        other => Err(
            CompileErrorView::OneOfTypeExpected {
                expected: record_or_struct(),
                found: other,
                at: target_at,
            },
        ),
    }
}

/// The type of a binary expression whose sides have the types `primary` and
/// `secondary`. Arithmetic and order take two numbers of one type, `&&` and
/// `||` two booleans, the others two values of one type. A comparison gives a
/// boolean, the others the type of the left side.
pub open spec fn binary_type(
    operator: Operator,
    primary: TypeView,
    secondary: TypeView,
    lhs_at: Span,
    rhs_at: Span,
) -> Result<TypeView, CompileErrorView> {
    if takes_numbers(operator) && !(primary is Float || primary is Integer) {
        Err(
            CompileErrorView::OneOfTypeExpected {
                expected: seq![TypeView::Float, TypeView::Integer],
                found: primary,
                at: lhs_at,
            },
        )
    } else if (operator == Operator::And || operator == Operator::Or) && primary
        != TypeView::Boolean {
        Err(CompileErrorView::TypeExpected { expected: TypeView::Boolean, found: primary, at: lhs_at })
    } else if primary != secondary {
        Err(CompileErrorView::TypeExpected { expected: primary, found: secondary, at: rhs_at })
    } else if gives_boolean(operator) {
        Ok(TypeView::Boolean)
    } else {
        Ok(primary)
    }
}

/// The type of an expression read at `span`, or the error that checking it
/// ends with.
pub open spec fn type_of(expression: ExpressionView, span: Span, compiler: CompilerView) -> Result<
    TypeView,
    CompileErrorView,
>
    decreases expression, 0nat,
{
    match expression {
        ExpressionView::Literal(literal) => Ok(literal_type(literal)),
        ExpressionView::FunctionCall { target, args } => match type_of(
            target.value,
            target.span,
            compiler,
        ) {
            Ok(TypeView::Function { output, .. }) => Ok(*output),
            Ok(other) => Err(
                CompileErrorView::TypeExpected {
                    expected: some_function(),
                    found: other,
                    at: target.span,
                },
            ),
            Err(error) => Err(error),
        },
        ExpressionView::Ident(name) => match compiler.get_var(span, name) {
            Ok((_, variable)) => Ok(variable.ty),
            Err(error) => Err(error),
        },
        ExpressionView::NewInstance { class, .. } => match compiler.get_var(class.span, class.value) {
            Ok((_, variable)) => Ok(variable.ty),
            Err(error) => Err(error),
        },
        ExpressionView::IfElse { block, .. } => block_type(block.value, compiler),
        ExpressionView::Block(block) => block_type(block, compiler),
        ExpressionView::Match { variants, .. } => if variants.len() == 0 {
            Ok(TypeView::Nothing)
        } else {
            match type_of(variants[0].value.body.value, variants[0].value.body.span, compiler) {
                Ok(primary) => arms_type(variants, 1, primary, compiler),
                Err(error) => Err(error),
            }
        },
        ExpressionView::Binary { lhs, rhs, operator } => match type_of(
            lhs.value,
            lhs.span,
            compiler,
        ) {
            Ok(primary) => match type_of(rhs.value, rhs.span, compiler) {
                Ok(secondary) => binary_type(operator.value, primary, secondary, lhs.span, rhs.span),
                Err(error) => Err(error),
            },
            Err(error) => Err(error),
        },
        ExpressionView::Index { object, index } => match type_of(
            object.value,
            object.span,
            compiler,
        ) {
            Ok(target) => match property_of(target, object.span, index) {
                Ok((_, ty)) => Ok(ty),
                Err(error) => Err(error),
            },
            Err(error) => Err(error),
        },
    }
}

/// The type of a block: that of the expression that ends it, nothing where
/// none does.
pub open spec fn block_type(block: BlockView, compiler: CompilerView) -> Result<
    TypeView,
    CompileErrorView,
>
    decreases block, 0nat,
{
    match block.return_statement {
        Some(statement) => statement_type(statement.value, statement.span, compiler),
        None => Ok(TypeView::Nothing),
    }
}

/// The type of a statement: that of an expression, nothing for the others.
pub open spec fn statement_type(statement: StatementView, span: Span, compiler: CompilerView) -> Result<
    TypeView,
    CompileErrorView,
>
    decreases statement, 0nat,
{
    match statement {
        StatementView::Expression(expression) => type_of(expression, span, compiler),
        _ => Ok(TypeView::Nothing),
    }
}

/// The arms from `from` on all give `primary`.
pub open spec fn arms_type(
    variants: Seq<Positioned<MatchVariantView>>,
    from: int,
    primary: TypeView,
    compiler: CompilerView,
) -> Result<TypeView, CompileErrorView>
    decreases variants, variants.len() - from,
{
    if from < 0 || from >= variants.len() {
        Ok(primary)
    } else {
        match type_of(variants[from].value.body.value, variants[from].value.body.span, compiler) {
            Ok(found) => if found != primary {
                Err(
                    CompileErrorView::TypeExpected {
                        expected: primary,
                        found,
                        at: variants[from].value.body.span,
                    },
                )
            } else {
                arms_type(variants, from + 1, primary, compiler)
            },
            Err(error) => Err(error),
        }
    }
}

/// Whether the compiler has code for everything in an expression: it has none
/// for loops.
pub open spec fn expression_supported(expression: ExpressionView) -> bool
    decreases expression, 0nat,
{
    match expression {
        ExpressionView::Literal(_) => true,
        ExpressionView::Ident(_) => true,
        ExpressionView::FunctionCall { target, args } => expression_supported(target.value)
            && expressions_supported(args.value, 0),
        ExpressionView::NewInstance { values, .. } => match values.value {
            InstanceArgsView::Struct(fields) => fields_supported(fields, 0),
            InstanceArgsView::Record(items) => expressions_supported(items, 0),
        },
        ExpressionView::IfElse { condition, block, else_block } => expression_supported(
            condition.value,
        ) && block_supported(block.value) && match else_block {
            Some(other) => expression_supported(other.value),
            None => true,
        },
        ExpressionView::Block(block) => block_supported(block),
        ExpressionView::Match { scrutinee, variants } => expression_supported(scrutinee.value)
            && arms_supported(variants, 0),
        ExpressionView::Binary { lhs, rhs, .. } => expression_supported(lhs.value)
            && expression_supported(rhs.value),
        ExpressionView::Index { object, .. } => expression_supported(object.value),
    }
}

pub open spec fn expressions_supported(expressions: Seq<Positioned<ExpressionView>>, from: int) -> bool
    decreases expressions, expressions.len() - from,
{
    if from < 0 || from >= expressions.len() {
        true
    } else {
        expression_supported(expressions[from].value) && expressions_supported(
            expressions,
            from + 1,
        )
    }
}

pub open spec fn fields_supported(fields: Seq<Positioned<StructFieldValueView>>, from: int) -> bool
    decreases fields, fields.len() - from,
{
    if from < 0 || from >= fields.len() {
        true
    } else {
        expression_supported(fields[from].value.value.value) && fields_supported(fields, from + 1)
    }
}

pub open spec fn arms_supported(variants: Seq<Positioned<MatchVariantView>>, from: int) -> bool
    decreases variants, variants.len() - from,
{
    if from < 0 || from >= variants.len() {
        true
    } else {
        (match variants[from].value.case.value {
            MatchCaseView::Ident(_) => true,
            MatchCaseView::Value(value) => expression_supported(value),
        }) && expression_supported(variants[from].value.body.value) && arms_supported(
            variants,
            from + 1,
        )
    }
}

pub open spec fn block_supported(block: BlockView) -> bool
    decreases block, 0nat,
{
    statements_supported(block.statements, 0) && match block.return_statement {
        Some(statement) => statement_supported(statement.value),
        None => true,
    }
}

pub open spec fn statements_supported(statements: Seq<Positioned<StatementView>>, from: int) -> bool
    decreases statements, statements.len() - from,
{
    if from < 0 || from >= statements.len() {
        true
    } else {
        statement_supported(statements[from].value) && statements_supported(statements, from + 1)
    }
}

/// Whether the compiler has code for everything in a statement.
pub open spec fn statement_supported(statement: StatementView) -> bool
    decreases statement, 0nat,
{
    match statement {
        StatementView::Variable(variable) => expression_supported(variable.value.value),
        StatementView::Struct(_) => true,
        StatementView::Record(_) => true,
        StatementView::Func(func) => block_supported(func.body.value),
        StatementView::ForIn(_) => false,
        StatementView::WhileLoop(_) => false,
        StatementView::Expression(expression) => expression_supported(expression),
    }
}

/// The code for a literal: a constant and the instruction that loads it. A
/// string is an object on the heap, and so are the digits of a float.
pub open spec fn literal_compiled(literal: LiteralView, span: Span, build: Build) -> Build {
    match literal {
        LiteralView::Integer(value) => build.load(span.line, Value::Integer(value)),
        LiteralView::Float(value) => Build {
            heap: build.heap.push(ObjectView::String(value.digits)),
            ..build
        }.load(
            span.line,
            Value::Float(
                Float::Literal {
                    negative: value.negative,
                    digits: build.heap.len() as usize,
                    scale: value.scale,
                },
            ),
        ),
        LiteralView::Boolean(value) => build.load(span.line, Value::Boolean(value)),
        LiteralView::String(text) => Build {
            heap: build.heap.push(ObjectView::String(text)),
            ..build
        }.load(span.line, Value::Object(build.heap.len() as usize)),
    }
}

/// The code that reads a variable: `GetLocal` with the frame of the variable
/// relative to the top one, and its slot.
pub open spec fn read_compiled(name: Seq<char>, span: Span, build: Build) -> Result<Build, Failure> {
    match build.compiler.get_var(span, name) {
        Ok((slot, variable)) => Ok(
            build.emit(
                span.line,
                OpCode::GetLocal(
                    depth_delta(variable.depth, build.compiler.scope_depth),
                    slot as usize,
                ),
            ),
        ),
        Err(error) => Err(Failure { error, build }),
    }
}

/// The instruction of an operator that is neither an assignment nor `&&` nor
/// `||`, appended at `line`.
pub open spec fn operator_compiled(operator: Operator, line: usize, build: Build) -> Build {
    match operator {
        Operator::Add => build.emit(line, OpCode::Add),
        Operator::Sub => build.emit(line, OpCode::Sub),
        Operator::Mul => build.emit(line, OpCode::Mul),
        Operator::Div => build.emit(line, OpCode::Div),
        Operator::Equal => build.emit(line, OpCode::Equal),
        Operator::NotEqual => build.emit(line, OpCode::Equal).emit(line, OpCode::Negate),
        Operator::LessThan => build.emit(line, OpCode::Less),
        Operator::GreaterThan => build.emit(line, OpCode::Greater),
        _ => build,
    }
}

/// The code of an expression read at `span`, appended to what `build` holds.
pub open spec fn expression_compiled(expression: ExpressionView, span: Span, build: Build) -> Result<Build, Failure>
    decreases expression, 0nat,
{
    match expression {
        ExpressionView::Literal(literal) => Ok(literal_compiled(literal, span, build)),
        ExpressionView::Ident(name) => read_compiled(name, span, build),
        ExpressionView::Block(block) => match block_compiled(block, span, build) {
            Ok(done) => Ok(done),
            Err(error) => Err(error),
        },
        ExpressionView::FunctionCall { target, args } => match type_of(
            target.value,
            target.span,
            build.compiler,
        ) {
            Err(error) => Err(Failure { error, build }),
            Ok(TypeView::Function { args: parameters, .. }) => match expression_compiled(
                target.value,
                target.span,
                build,
            ) {
                Err(error) => Err(error),
                Ok(called) => if parameters.len() != args.value.len() {
                    Err(
                        Failure {
                            error: CompileErrorView::InvalidArgumentsCount {
                                expected: parameters.len() as usize,
                                got: args.value.len() as usize,
                                function_at: None,
                                at: span,
                            },
                            build: called,
                        },
                    )
                } else {
                    match arguments_compiled(args.value, parameters, 0, called) {
                        Err(error) => Err(error),
                        Ok(passed) => Ok(
                            passed.emit(span.line, OpCode::Call(args.value.len() as usize)),
                        ),
                    }
                },
            },
            Ok(other) => Err(
                Failure {
                    error: CompileErrorView::TypeExpected {
                        expected: some_function(),
                        found: other,
                        at: target.span,
                    },
                    build,
                },
            ),
        },
        ExpressionView::IfElse { condition, block, else_block } => match type_of(
            condition.value,
            condition.span,
            build.compiler,
        ) {
            Err(error) => Err(Failure { error, build }),
            Ok(found) => if found != TypeView::Boolean {
                Err(
                    Failure {
                        error: CompileErrorView::TypeExpected {
                            expected: TypeView::Boolean,
                            found,
                            at: condition.span,
                        },
                        build,
                    },
                )
            } else {
                match expression_compiled(condition.value, condition.span, build) {
                    Err(error) => Err(error),
                    Ok(tested) => match block_compiled(
                        block.value,
                        block.span,
                        tested.emit(span.line, OpCode::JumpIfFalse(0)),
                    ) {
                        Err(error) => Err(error),
                        Ok(taken) => {
                            let skipping = taken.patch(tested.len(), taken.len().wrapping_sub(1));
                            match else_block {
                                None => Ok(skipping),
                                Some(other) => match expression_compiled(
                                    other.value,
                                    other.span,
                                    skipping.patch(tested.len(), taken.len()).emit(
                                        span.line,
                                        OpCode::Jump(0),
                                    ),
                                ) {
                                    Err(error) => Err(error),
                                    Ok(both) => Ok(
                                        both.patch(taken.len(), both.len().wrapping_sub(1)),
                                    ),
                                },
                            }
                        },
                    },
                }
            },
        },
        ExpressionView::Match { scrutinee, variants } => match type_of(
            scrutinee.value,
            scrutinee.span,
            build.compiler,
        ) {
            Err(error) => Err(Failure { error, build }),
            Ok(target) => match expression_compiled(scrutinee.value, scrutinee.span, build) {
                Err(error) => Err(error),
                Ok(pushed) => match arms_compiled(variants, 0, target, span, pushed, Seq::empty()) {
                    Err(error) => Err(error),
                    Ok((arms, jumps)) => Ok(
                        arms.patch_all(jumps, arms.len().wrapping_sub(1)),
                    ),
                },
            },
        },
        ExpressionView::Binary { lhs, rhs, operator } => if operator.value == Operator::Assign {
            match lhs.value {
                ExpressionView::Ident(name) => match build.compiler.get_var(lhs.span, name) {
                    Err(error) => Err(Failure { error, build }),
                    Ok((slot, variable)) => if !variable.mutable {
                        Err(
                            Failure {
                                error: CompileErrorView::ImmutableVariable {
                                    name,
                                    accessed_at: lhs.span,
                                    declared_at: variable.span,
                                },
                                build,
                            },
                        )
                    } else {
                        match type_of(rhs.value, rhs.span, build.compiler) {
                            Err(error) => Err(Failure { error, build }),
                            Ok(found) => if found != variable.ty {
                                Err(
                                    Failure {
                                        error: CompileErrorView::TypeExpected {
                                            expected: variable.ty,
                                            found,
                                            at: rhs.span,
                                        },
                                        build,
                                    },
                                )
                            } else {
                                match expression_compiled(rhs.value, rhs.span, build) {
                                    Err(error) => Err(error),
                                    Ok(valued) => Ok(
                                        valued.emit(
                                            lhs.span.line,
                                            OpCode::SetLocal(Some(variable.depth), slot as usize),
                                        ),
                                    ),
                                }
                            },
                        }
                    },
                },
                ExpressionView::Index { object, index } => match type_of(
                    object.value,
                    object.span,
                    build.compiler,
                ) {
                    Err(error) => Err(Failure { error, build }),
                    Ok(target) => match expression_compiled(object.value, object.span, build) {
                        Err(error) => Err(error),
                        Ok(pushed) => match property_of(target, object.span, index) {
                            Err(error) => Err(Failure { error, build: pushed }),
                            Ok((place, _)) => match expression_compiled(
                                rhs.value,
                                rhs.span,
                                pushed,
                            ) {
                                Err(error) => Err(error),
                                Ok(valued) => Ok(
                                    valued.emit(index.span.line, OpCode::SetProperty(place)),
                                ),
                            },
                        },
                    },
                },
                other => expression_compiled(other, lhs.span, build),
            }
        } else {
            match type_of(expression, span, build.compiler) {
                Err(error) => Err(Failure { error, build }),
                Ok(_) => match expression_compiled(lhs.value, lhs.span, build) {
                    Err(error) => Err(error),
                    Ok(left) => if operator.value == Operator::And {
                        match expression_compiled(
                            rhs.value,
                            rhs.span,
                            left.emit(span.line, OpCode::JumpIfFalse(0)).emit(
                                span.line,
                                OpCode::Pop,
                            ),
                        ) {
                            Err(error) => Err(error),
                            Ok(both) => Ok(both.patch(left.len(), both.len())),
                        }
                    } else if operator.value == Operator::Or {
                        match expression_compiled(
                            rhs.value,
                            rhs.span,
                            left.emit(span.line, OpCode::JumpIfFalse(0)).emit(
                                span.line,
                                OpCode::Jump(0),
                            ).emit(span.line, OpCode::Pop),
                        ) {
                            Err(error) => Err(error),
                            Ok(both) => Ok(
                                both.patch(left.len(), left.len().wrapping_add(1)).patch(
                                    left.len().wrapping_add(1),
                                    both.len(),
                                ),
                            ),
                        }
                    } else {
                        match expression_compiled(rhs.value, rhs.span, left) {
                            Err(error) => Err(error),
                            Ok(both) => Ok(
                                operator_compiled(operator.value, operator.span.line, both),
                            ),
                        }
                    },
                },
            }
        },
        ExpressionView::Index { object, index } => match type_of(
            object.value,
            object.span,
            build.compiler,
        ) {
            Err(error) => Err(Failure { error, build }),
            Ok(target) => match expression_compiled(object.value, object.span, build) {
                Err(error) => Err(error),
                Ok(pushed) => match property_of(target, object.span, index) {
                    Err(error) => Err(Failure { error, build: pushed }),
                    Ok((place, _)) => Ok(pushed.emit(index.span.line, OpCode::GetProperty(place))),
                },
            },
        },
        ExpressionView::NewInstance { class, values } => match build.compiler.get_var(
            class.span,
            class.value,
        ) {
            Err(error) => Err(Failure { error, build }),
            Ok((slot, variable)) => match variable.ty {
                TypeView::Record { items, .. } => match values.value {
                    InstanceArgsView::Record(given) => if given.len() != items.len() {
                        Err(
                            Failure {
                                error: CompileErrorView::InvalidArgumentsCount {
                                    expected: items.len() as usize,
                                    got: given.len() as usize,
                                    function_at: variable.span,
                                    at: span,
                                },
                                build,
                            },
                        )
                    } else {
                        match items_checked(given, items, 0, build.compiler) {
                            Err(error) => Err(Failure { error, build }),
                            Ok(()) => match items_compiled(given, 0, build) {
                                Err(error) => Err(error),
                                Ok(pushed) => Ok(
                                    instance_compiled(variable.depth, slot as usize, span, pushed),
                                ),
                            },
                        }
                    },
                    InstanceArgsView::Struct(_) => Err(
                        Failure {
                            error: CompileErrorView::InvalidInstanceArgs {
                                expected: InstanceArgsType::Record,
                                got: InstanceArgsType::Struct,
                                instance_at: variable.span,
                                at: values.span,
                            },
                            build,
                        },
                    ),
                },
                TypeView::Struct { name, fields } => match values.value {
                    InstanceArgsView::Struct(given) => match fields_known(
                        given,
                        name,
                        fields,
                        variable.span,
                        0,
                    ) {
                        Err(error) => Err(Failure { error, build }),
                        Ok(()) => {
                            let order = declaration_order(given, fields);
                            match fields_checked(given, order, fields, 0, build.compiler) {
                                Err(error) => Err(Failure { error, build }),
                                Ok(()) => match fields_compiled(given, order, 0, build) {
                                    Err(error) => Err(error),
                                    Ok(pushed) => Ok(
                                        instance_compiled(
                                            variable.depth,
                                            slot as usize,
                                            span,
                                            pushed,
                                        ),
                                    ),
                                },
                            }
                        },
                    },
                    InstanceArgsView::Record(_) => Err(
                        Failure {
                            error: CompileErrorView::InvalidInstanceArgs {
                                expected: InstanceArgsType::Struct,
                                got: InstanceArgsType::Record,
                                instance_at: variable.span,
                                at: values.span,
                            },
                            build,
                        },
                    ),
                },
                other => Err(
                    Failure {
                        error: CompileErrorView::OneOfTypeExpected {
                            expected: record_or_struct(),
                            found: other,
                            at: class.span,
                        },
                        build,
                    },
                ),
            },
        },
    }
}

/// Behind the values of the fields: the description is read from its variable
/// and the instance is made.
pub open spec fn instance_compiled(depth: usize, slot: usize, span: Span, build: Build) -> Build {
    build.emit(
        span.line,
        OpCode::GetLocal(depth_delta(depth, build.compiler.scope_depth), slot),
    ).emit(span.line, OpCode::CreateInstance)
}

/// The arguments from `from` on, each checked against the type of its parameter
/// and then compiled.
pub open spec fn arguments_compiled(
    args: Seq<Positioned<ExpressionView>>,
    parameters: Seq<TypeView>,
    from: int,
    build: Build,
) -> Result<Build, Failure>
    decreases args, args.len() - from,
{
    if from < 0 || from >= args.len() {
        Ok(build)
    } else {
        match type_of(args[from].value, args[from].span, build.compiler) {
            Err(error) => Err(Failure { error, build }),
            Ok(found) => if !Type::spec_compare(found, parameters[from]) {
                Err(
                    Failure {
                        error: CompileErrorView::TypeExpected {
                            expected: parameters[from],
                            found,
                            at: args[from].span,
                        },
                        build,
                    },
                )
            } else {
                match expression_compiled(args[from].value, args[from].span, build) {
                    Err(error) => Err(error),
                    Ok(pushed) => arguments_compiled(args, parameters, from + 1, pushed),
                }
            },
        }
    }
}

/// The values of a record from `from` on each match the type of their field.
pub open spec fn items_checked(
    given: Seq<Positioned<ExpressionView>>,
    items: Seq<TypeView>,
    from: int,
    compiler: CompilerView,
) -> Result<(), CompileErrorView>
    decreases given, given.len() - from,
{
    if from < 0 || from >= given.len() {
        Ok(())
    } else {
        match type_of(given[from].value, given[from].span, compiler) {
            Err(error) => Err(error),
            Ok(found) => if !Type::spec_compare(found, items[from]) {
                Err(
                    CompileErrorView::TypeExpected {
                        expected: items[from],
                        found,
                        at: given[from].span,
                    },
                )
            } else {
                items_checked(given, items, from + 1, compiler)
            },
        }
    }
}

/// The code of the expressions from `from` on, one after the other.
pub open spec fn items_compiled(given: Seq<Positioned<ExpressionView>>, from: int, build: Build) -> Result<Build, Failure>
    decreases given, given.len() - from,
{
    if from < 0 || from >= given.len() {
        Ok(build)
    } else {
        match expression_compiled(given[from].value, given[from].span, build) {
            Err(error) => Err(error),
            Ok(pushed) => items_compiled(given, from + 1, pushed),
        }
    }
}

/// Every field given from `from` on is a field of the struct.
pub open spec fn fields_known(
    given: Seq<Positioned<StructFieldValueView>>,
    name: Seq<char>,
    fields: Seq<(Seq<char>, TypeView)>,
    defined_at: Option<Span>,
    from: int,
) -> Result<(), CompileErrorView>
    decreases given.len() - from,
{
    if from < 0 || from >= given.len() {
        Ok(())
    } else if position(fields, given[from].value.name.value) is None {
        Err(
            CompileErrorView::PropertyNotExist {
                target: name,
                property: given[from].value.name.value,
                defined_at,
                at: given[from].span,
            },
        )
    } else {
        fields_known(given, name, fields, defined_at, from + 1)
    }
}

/// The places of the given fields in the order in which the struct declares
/// them; fields given for the same place stay in the order they were given in.
pub open spec fn declaration_order(
    given: Seq<Positioned<StructFieldValueView>>,
    fields: Seq<(Seq<char>, TypeView)>,
) -> Seq<int> {
    ordered(
        Seq::new(
            given.len(),
            |i: int|
                match position(fields, given[i].value.name.value) {
                    Some(place) => place,
                    None => -1,
                },
        ),
        fields.len() as int,
    )
}

/// The given fields, taken in `order` from `from` on, each match the type of
/// the declared field at the same place, as far as both lists go.
pub open spec fn fields_checked(
    given: Seq<Positioned<StructFieldValueView>>,
    order: Seq<int>,
    fields: Seq<(Seq<char>, TypeView)>,
    from: int,
    compiler: CompilerView,
) -> Result<(), CompileErrorView>
    decreases given, order.len() - from,
{
    if from < 0 || from >= order.len() || from >= fields.len() || !(0 <= order[from]
        < given.len()) {
        Ok(())
    } else {
        let value = given[order[from]].value.value;
        match type_of(value.value, value.span, compiler) {
            Err(error) => Err(error),
            Ok(found) => if !Type::spec_compare(found, fields[from].1) {
                Err(
                    CompileErrorView::TypeExpected {
                        expected: fields[from].1,
                        found,
                        at: value.span,
                    },
                )
            } else {
                fields_checked(given, order, fields, from + 1, compiler)
            },
        }
    }
}

/// The code of the values of the given fields, taken in `order` from `from` on.
pub open spec fn fields_compiled(
    given: Seq<Positioned<StructFieldValueView>>,
    order: Seq<int>,
    from: int,
    build: Build,
) -> Result<Build, Failure>
    decreases given, order.len() - from,
{
    if from < 0 || from >= order.len() || !(0 <= order[from] < given.len()) {
        Ok(build)
    } else {
        let value = given[order[from]].value.value;
        match expression_compiled(value.value, value.span, build) {
            Err(error) => Err(error),
            Ok(pushed) => fields_compiled(given, order, from + 1, pushed),
        }
    }
}

/// The arms of a `match` read at `span`, from `from` on, with the jumps that
/// lead out of the arms before, which are set once the end is known. An arm with
/// a name binds the value to it in a scope and a frame of its own and takes
/// every value, so the arms behind it are not looked at. An arm with a value
/// compares a copy of what is matched with it.
pub open spec fn arms_compiled(
    variants: Seq<Positioned<MatchVariantView>>,
    from: int,
    target: TypeView,
    span: Span,
    build: Build,
    jumps: Seq<usize>,
) -> Result<(Build, Seq<usize>), Failure>
    decreases variants, variants.len() - from,
{
    if from < 0 || from >= variants.len() {
        Ok((build, jumps))
    } else {
        let variant = variants[from];
        let case = variant.value.case;
        let body = variant.value.body;
        match case.value {
            MatchCaseView::Ident(name) => {
                let (bound, slot) = build.emit(variant.span.line, OpCode::PushFrame).push_scope().declare(
                    name,
                    false,
                    target,
                    Some(case.span),
                );
                match expression_compiled(
                    body.value,
                    body.span,
                    bound.emit(case.span.line, OpCode::SetLocal(None, slot)),
                ) {
                    Err(error) => Err(error),
                    Ok(done) => Ok(
                        (
                            done.emit(variant.span.line, OpCode::Return).pop_scope().emit(
                                variant.span.line,
                                OpCode::PopFrame,
                            ),
                            jumps,
                        ),
                    ),
                }
            },
            MatchCaseView::Value(value) => match type_of(value, span, build.compiler) {
                Err(error) => Err(Failure { error, build }),
                Ok(found) => if found != target {
                    Err(
                        Failure {
                            error: CompileErrorView::TypeExpected {
                                expected: target,
                                found,
                                at: case.span,
                            },
                            build,
                        },
                    )
                } else {
                    match expression_compiled(
                        value,
                        case.span,
                        build.emit(variant.span.line, OpCode::Copy),
                    ) {
                        Err(error) => Err(error),
                        Ok(compared) => match expression_compiled(
                            body.value,
                            body.span,
                            compared.emit(case.span.line, OpCode::Equal).emit(
                                case.span.line,
                                OpCode::JumpIfFalse(0),
                            ).emit(case.span.line, OpCode::Pop),
                        ) {
                            Err(error) => Err(error),
                            Ok(done) => {
                                let start = compared.len().wrapping_add(1);
                                let left = done.emit(case.span.line, OpCode::Jump(0));
                                let exit = left.len().wrapping_sub(1);
                                arms_compiled(
                                    variants,
                                    from + 1,
                                    target,
                                    span,
                                    left.patch(start, exit),
                                    jumps.push(exit),
                                )
                            },
                        },
                    }
                },
            },
        }
    }
}

/// The code of a block read at `span`, and the type of the block: a frame and a
/// scope are opened, the statements run, the expression that ends the block
/// gives the value that the frame returns, and frame and scope are closed.
pub open spec fn block_compiled(block: BlockView, span: Span, build: Build) -> Result<Build, Failure>
    decreases block, 1nat,
{
    match statements_compiled(
        block.statements,
        0,
        build.emit(span.line, OpCode::PushFrame).push_scope(),
    ) {
        Err(error) => Err(error),
        Ok(inside) => match block.return_statement {
            None => Ok(inside.pop_scope().emit(span.line, OpCode::PopFrame)),
            Some(statement) => match statement_type(
                statement.value,
                statement.span,
                inside.compiler,
            ) {
                Err(error) => Err(Failure { error, build: inside }),
                Ok(_) => match statement_compiled(statement.value, statement.span, inside) {
                    Err(error) => Err(error),
                    Ok(valued) => Ok(
                        valued.emit(span.line, OpCode::Return).pop_scope().emit(
                            span.line,
                            OpCode::PopFrame,
                        ),
                    ),
                },
            },
        },
    }
}

/// The code of the statements from `from` on, one after the other.
pub open spec fn statements_compiled(
    statements: Seq<Positioned<StatementView>>,
    from: int,
    build: Build,
) -> Result<Build, Failure>
    decreases statements, statements.len() - from,
{
    if from < 0 || from >= statements.len() {
        Ok(build)
    } else {
        match statement_compiled(statements[from].value, statements[from].span, build) {
            Err(error) => Err(error),
            Ok(done) => statements_compiled(statements, from + 1, done),
        }
    }
}

/// The types of the parameters of a function, in order.
pub open spec fn parameter_types(args: Seq<Positioned<TypedNameView>>) -> Seq<TypeView> {
    Seq::new(args.len(), |i: int| args[i].value.ty.value)
}

/// The types of the fields of a record, in order.
pub open spec fn record_types(fields: Seq<Positioned<TypeView>>) -> Seq<TypeView> {
    Seq::new(fields.len(), |i: int| fields[i].value)
}

/// The names and types of the fields of a struct, in order.
pub open spec fn struct_fields(fields: Seq<Positioned<TypedNameView>>) -> Seq<(Seq<char>, TypeView)> {
    Seq::new(fields.len(), |i: int| (fields[i].value.name.value, fields[i].value.ty.value))
}

/// The table of a function body: the parameters from `from` on are mutable
/// variables in the order they are written in.
pub open spec fn parameters_declared(
    args: Seq<Positioned<TypedNameView>>,
    from: int,
    compiler: CompilerView,
) -> CompilerView
    decreases args.len() - from,
{
    if from < 0 || from >= args.len() {
        compiler
    } else {
        parameters_declared(
            args,
            from + 1,
            compiler.create_var(
                args[from].value.name.value,
                true,
                args[from].value.ty.value,
                Some(args[from].span),
            ).0,
        )
    }
}

/// The type that a function declares.
pub open spec fn function_type(func: FuncStatementView) -> TypeView {
    TypeView::Function {
        args: parameter_types(func.args.value),
        output: Box::new(
            match func.output_type {
                Some(output) => output.value,
                None => TypeView::Nothing,
            },
        ),
    }
}

/// The table with which the body of a function is compiled: one scope deep,
/// with the parameters and then the function itself, and nothing of what is
/// outside.
pub open spec fn function_scope(func: FuncStatementView, span: Span) -> CompilerView {
    parameters_declared(func.args.value, 0, CompilerView::fresh().push_scope()).create_var(
        func.name.value,
        false,
        function_type(func),
        Some(span),
    ).0
}

/// The code of a statement read at `span`.
pub open spec fn statement_compiled(statement: StatementView, span: Span, build: Build) -> Result<Build, Failure>
    decreases statement, 0nat,
{
    match statement {
        StatementView::Expression(expression) => expression_compiled(expression, span, build),
        StatementView::Variable(variable) => match type_of(
            variable.value.value,
            variable.value.span,
            build.compiler,
        ) {
            Err(error) => Err(Failure { error, build }),
            Ok(ty) => {
                let (compiler, slot) = build.compiler.get_or_create_var(
                    variable.name.value,
                    ty,
                    variable.mutable.value,
                    Some(span),
                );
                match expression_compiled(
                    variable.value.value,
                    variable.value.span,
                    Build { compiler, ..build },
                ) {
                    Err(error) => Err(error),
                    Ok(valued) => Ok(
                        valued.emit(variable.value.span.line, OpCode::SetLocal(None, slot)),
                    ),
                }
            },
        },
        StatementView::Record(record) => {
            let types = record_types(record.fields.value);
            let (declared, slot) = build.declare(
                record.name.value,
                false,
                TypeView::Record { name: record.name.value, items: types },
                Some(span),
            );
            Ok(
                declared.define(
                    span.line,
                    ObjectView::Record { name: record.name.value, types },
                    slot,
                ),
            )
        },
        StatementView::Struct(structure) => {
            let fields = struct_fields(structure.fields.value);
            let (declared, slot) = build.declare(
                structure.name.value,
                false,
                TypeView::Struct { name: structure.name.value, fields },
                Some(span),
            );
            Ok(
                declared.define(
                    span.line,
                    ObjectView::Struct { name: structure.name.value, fields },
                    slot,
                ),
            )
        },
        StatementView::Func(func) => {
            let output = match func.output_type {
                Some(output) => output.value,
                None => TypeView::Nothing,
            };
            let (declared, slot) = build.declare(
                func.name.value,
                false,
                function_type(func),
                Some(span),
            );
            match function_body_compiled(
                func.body.value,
                func.body.span,
                Build {
                    compiler: function_scope(func, span),
                    chunk: ChunkView::empty(),
                    heap: build.heap,
                },
            ) {
                Err(failure) => Err(
                    Failure {
                        error: failure.error,
                        build: Build { heap: failure.build.heap, ..declared },
                    },
                ),
                Ok((body, found)) => if found != output {
                    Err(
                        Failure {
                            error: CompileErrorView::TypeExpected {
                                expected: output,
                                found,
                                at: span,
                            },
                            build: Build { heap: body.heap, ..declared },
                        },
                    )
                } else {
                    Ok(
                        Build { heap: body.heap, ..declared }.define(
                            span.line,
                            ObjectView::Function {
                                meta: FunctionMetadataView {
                                    name: func.name.value,
                                    args: parameter_types(func.args.value),
                                    output,
                                },
                                chunk: body.chunk,
                            },
                            slot,
                        ),
                    )
                },
            }
        },
        StatementView::ForIn(_) => Ok(build),
        StatementView::WhileLoop(_) => Ok(build),
    }
}

/// The code of the body of a function, which ends in `Halt`, and the type of
/// what the body gives.
pub open spec fn function_body_compiled(body: BlockView, body_at: Span, build: Build) -> Result<(Build, TypeView), Failure>
    decreases body, 1nat,
{
    match statements_compiled(body.statements, 0, build) {
        Err(error) => Err(error),
        Ok(inside) => match body.return_statement {
            None => Ok(
                (inside.pop_scope().emit(0, OpCode::Halt), TypeView::Nothing),
            ),
            Some(statement) => match statement_type(
                statement.value,
                statement.span,
                inside.compiler,
            ) {
                Err(error) => Err(Failure { error, build: inside }),
                Ok(found) => match statement_compiled(statement.value, statement.span, inside) {
                    Err(error) => Err(error),
                    Ok(valued) => Ok(
                        (
                            valued.emit(body_at.line, OpCode::Return).pop_scope().emit(
                                0,
                                OpCode::Halt,
                            ),
                            found,
                        ),
                    ),
                },
            },
        },
    }
}

/// The code of a program: the statements, the expression that ends the program
/// with `Return` behind it, and `Halt`.
pub open spec fn program_compiled(
    statements: Seq<Positioned<StatementView>>,
    return_statement: Option<Positioned<StatementView>>,
    compiler: CompilerView,
    heap: Seq<ObjectView>,
) -> Result<Build, Failure> {
    match statements_compiled(
        statements,
        0,
        Build { compiler, chunk: ChunkView::empty(), heap },
    ) {
        Err(error) => Err(error),
        Ok(done) => match return_statement {
            None => Ok(done.emit(0, OpCode::Halt)),
            Some(statement) => match statement_compiled(statement.value, statement.span, done) {
                Err(error) => Err(error),
                Ok(valued) => Ok(
                    valued.emit(statement.span.line, OpCode::Return).emit(0, OpCode::Halt),
                ),
            },
        },
    }
}

/// Whether the compiler has code for a whole program.
pub open spec fn program_supported(
    statements: Seq<Positioned<StatementView>>,
    return_statement: Option<Positioned<StatementView>>,
) -> bool {
    statements_supported(statements, 0) && match return_statement {
        Some(statement) => statement_supported(statement.value),
        None => true,
    }
}

} // verus!
