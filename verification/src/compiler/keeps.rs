//! What compiling never undoes: a variable keeps its slot, its name and its
//! depth, a constant keeps its index, and an object keeps its place on the
//! heap.

use crate::compiler::rules::{
    arguments_compiled, arms_compiled, block_compiled, declaration_order, expression_compiled,
    fields_compiled, function_body_compiled, function_scope, items_compiled, program_compiled,
    statement_compiled, statements_compiled, type_of,
};
use crate::compiler::state::{Build, CompilerView};
use crate::parser::ast::Operator;
use crate::parser::model::{
    BlockView, ExpressionView, InstanceArgsView, MatchCaseView, MatchVariantView, StatementView,
    StructFieldValueView,
};
use crate::shared::{Positioned, Span};
use crate::typing::TypeView;
use crate::vm::chunk::ChunkView;
use crate::vm::op::OpCode;
use crate::vm::value::{ObjectView, Value};
use vstd::prelude::*;

verus! {

/// Whether the table of `later` holds every variable of `earlier` at its slot,
/// with its name and its depth.
pub open spec fn keeps_variables(earlier: CompilerView, later: CompilerView) -> bool {
    &&& earlier.variables.len() <= later.variables.len()
    &&& forall|slot: int|
        0 <= slot < earlier.variables.len() ==> (#[trigger] later.variables[slot]).name
            == earlier.variables[slot].name && later.variables[slot].depth
            == earlier.variables[slot].depth
}

/// Whether `later` holds everything that `earlier` holds: the variables at
/// their slots, the constants at their indices, the objects at their places.
pub open spec fn keeps(earlier: Build, later: Build) -> bool {
    &&& keeps_variables(earlier.compiler, later.compiler)
    &&& earlier.chunk.constants.len() <= later.chunk.constants.len()
    &&& forall|index: int|
        0 <= index < earlier.chunk.constants.len() ==> #[trigger] later.chunk.constants[index]
            == earlier.chunk.constants[index]
    &&& earlier.heap.len() <= later.heap.len()
    &&& forall|handle: int|
        0 <= handle < earlier.heap.len() ==> #[trigger] later.heap[handle] == earlier.heap[handle]
}

/// What is kept, and then kept again, is kept.
pub proof fn lemma_keeps_further(first: Build, second: Build, third: Build)
    requires
        keeps(first, second),
        keeps(second, third),
    ensures
        keeps(first, third),
{
    assert forall|slot: int| 0 <= slot < first.compiler.variables.len() implies (
    #[trigger] third.compiler.variables[slot]).name == first.compiler.variables[slot].name
        && third.compiler.variables[slot].depth == first.compiler.variables[slot].depth by {
        assert(second.compiler.variables[slot].name == first.compiler.variables[slot].name);
    }
    assert forall|index: int| 0 <= index < first.chunk.constants.len() implies #[trigger] third.chunk.constants[index]
        == first.chunk.constants[index] by {
        assert(second.chunk.constants[index] == first.chunk.constants[index]);
    }
    assert forall|handle: int| 0 <= handle < first.heap.len() implies #[trigger] third.heap[handle]
        == first.heap[handle] by {
        assert(second.heap[handle] == first.heap[handle]);
    }
}

/// A declaration keeps every variable: a new one gets a slot of its own, and
/// one that is shadowed keeps its slot, its name and its depth.
pub proof fn lemma_declaration_keeps(
    compiler: CompilerView,
    name: Seq<char>,
    ty: TypeView,
    mutable: bool,
    span: Option<Span>,
)
    ensures
        keeps_variables(compiler, compiler.get_or_create_var(name, ty, mutable, span).0),
        keeps_variables(compiler, compiler.create_var(name, mutable, ty, span).0),
{
    crate::compiler::laws::lemma_newest_is_newest(
        compiler.variables,
        name,
        compiler.variables.len() as int,
    );
    crate::compiler::laws::lemma_newest_at_is_newest(
        compiler.variables,
        name,
        compiler.scope_depth,
        compiler.variables.len() as int,
    );
}

#[verifier::rlimit(40)]
pub proof fn lemma_expression_keeps(expression: ExpressionView, span: Span, build: Build)
    requires
        expression_compiled(expression, span, build) is Ok,
    ensures
        keeps(build, expression_compiled(expression, span, build)->Ok_0),
    decreases expression, 1nat,
{
    match expression {
        ExpressionView::Literal(_) => {},
        ExpressionView::Ident(_) => {},
        ExpressionView::Block(block) => lemma_block_keeps(block, span, build),
        ExpressionView::FunctionCall { target, args } => {
            let parameters = type_of(target.value, target.span, build.compiler)->Ok_0->Function_args;
            let called = expression_compiled(target.value, target.span, build)->Ok_0;
            let passed = arguments_compiled(args.value, parameters, 0, called)->Ok_0;
            lemma_expression_keeps(target.value, target.span, build);
            lemma_arguments_keeps(args.value, parameters, 0, called);
            lemma_keeps_further(build, called, passed);
        },
        ExpressionView::IfElse { .. } => lemma_conditional_keeps(expression, span, build),
        ExpressionView::Match { scrutinee, variants } => {
            let target = type_of(scrutinee.value, scrutinee.span, build.compiler)->Ok_0;
            let pushed = expression_compiled(scrutinee.value, scrutinee.span, build)->Ok_0;
            let read = arms_compiled(variants, 0, target, span, pushed, Seq::empty())->Ok_0;
            lemma_expression_keeps(scrutinee.value, scrutinee.span, build);
            lemma_arms_keeps(variants, 0, target, span, pushed, Seq::empty());
            lemma_keeps_further(build, pushed, read.0);
        },
        ExpressionView::Binary { .. } => lemma_binary_keeps(expression, span, build),
        ExpressionView::Index { object, index } => {
            lemma_expression_keeps(object.value, object.span, build);
        },
        ExpressionView::NewInstance { class, values } => {
            let variable = build.compiler.get_var(class.span, class.value)->Ok_0.1;
            match values.value {
                InstanceArgsView::Record(given) => {
                    lemma_items_keeps(given, 0, build);
                },
                InstanceArgsView::Struct(given) => {
                    lemma_fields_keeps(
                        given,
                        declaration_order(given, variable.ty->Struct_fields),
                        0,
                        build,
                    );
                },
            }
        },
    }
}

#[verifier::rlimit(40)]
pub proof fn lemma_conditional_keeps(expression: ExpressionView, span: Span, build: Build)
    requires
        expression is IfElse,
        expression_compiled(expression, span, build) is Ok,
    ensures
        keeps(build, expression_compiled(expression, span, build)->Ok_0),
    decreases expression, 0nat,
{
    let condition = expression->IfElse_condition;
    let block = expression->IfElse_block;
    let tested = expression_compiled(condition.value, condition.span, build)->Ok_0;
    let jump = tested.emit(span.line, OpCode::JumpIfFalse(0));
    let taken = block_compiled(block.value, block.span, jump)->Ok_0;
    let skipping = taken.patch(tested.len(), taken.len().wrapping_sub(1));
    lemma_expression_keeps(condition.value, condition.span, build);
    lemma_block_keeps(block.value, block.span, jump);
    lemma_keeps_further(build, jump, taken);
    match expression->IfElse_else_block {
        None => {},
        Some(other) => {
            let over = skipping.patch(tested.len(), taken.len()).emit(span.line, OpCode::Jump(0));
            lemma_expression_keeps(other.value, other.span, over);
            lemma_keeps_further(
                build,
                over,
                expression_compiled(other.value, other.span, over)->Ok_0,
            );
        },
    }
}

#[verifier::rlimit(40)]
pub proof fn lemma_binary_keeps(expression: ExpressionView, span: Span, build: Build)
    requires
        expression is Binary,
        expression_compiled(expression, span, build) is Ok,
    ensures
        keeps(build, expression_compiled(expression, span, build)->Ok_0),
    decreases expression, 0nat,
{
    let lhs = expression->Binary_lhs;
    let rhs = expression->Binary_rhs;
    let operator = expression->Binary_operator;
    if operator.value == Operator::Assign {
        match lhs.value {
            ExpressionView::Ident(name) => {
                lemma_expression_keeps(rhs.value, rhs.span, build);
            },
            ExpressionView::Index { object, index } => {
                let pushed = expression_compiled(object.value, object.span, build)->Ok_0;
                lemma_expression_keeps(object.value, object.span, build);
                lemma_expression_keeps(rhs.value, rhs.span, pushed);
                lemma_keeps_further(
                    build,
                    pushed,
                    expression_compiled(rhs.value, rhs.span, pushed)->Ok_0,
                );
            },
            other => {
                lemma_expression_keeps(other, lhs.span, build);
            },
        }
    } else {
        let left = expression_compiled(lhs.value, lhs.span, build)->Ok_0;
        lemma_expression_keeps(lhs.value, lhs.span, build);
        let start = if operator.value == Operator::And {
            left.emit(span.line, OpCode::JumpIfFalse(0)).emit(span.line, OpCode::Pop)
        } else if operator.value == Operator::Or {
            left.emit(span.line, OpCode::JumpIfFalse(0)).emit(span.line, OpCode::Jump(0)).emit(
                span.line,
                OpCode::Pop,
            )
        } else {
            left
        };
        lemma_expression_keeps(rhs.value, rhs.span, start);
        lemma_keeps_further(build, start, expression_compiled(rhs.value, rhs.span, start)->Ok_0);
    }
}

pub proof fn lemma_arguments_keeps(
    args: Seq<Positioned<ExpressionView>>,
    parameters: Seq<TypeView>,
    from: int,
    build: Build,
)
    requires
        0 <= from,
        arguments_compiled(args, parameters, from, build) is Ok,
    ensures
        keeps(build, arguments_compiled(args, parameters, from, build)->Ok_0),
    decreases args, args.len() - from,
{
    if from < args.len() {
        let pushed = expression_compiled(args[from].value, args[from].span, build)->Ok_0;
        lemma_expression_keeps(args[from].value, args[from].span, build);
        lemma_arguments_keeps(args, parameters, from + 1, pushed);
        lemma_keeps_further(
            build,
            pushed,
            arguments_compiled(args, parameters, from + 1, pushed)->Ok_0,
        );
    }
}

pub proof fn lemma_items_keeps(given: Seq<Positioned<ExpressionView>>, from: int, build: Build)
    requires
        0 <= from,
        items_compiled(given, from, build) is Ok,
    ensures
        keeps(build, items_compiled(given, from, build)->Ok_0),
    decreases given, given.len() - from,
{
    if from < given.len() {
        let pushed = expression_compiled(given[from].value, given[from].span, build)->Ok_0;
        lemma_expression_keeps(given[from].value, given[from].span, build);
        lemma_items_keeps(given, from + 1, pushed);
        lemma_keeps_further(build, pushed, items_compiled(given, from + 1, pushed)->Ok_0);
    }
}

pub proof fn lemma_fields_keeps(
    given: Seq<Positioned<StructFieldValueView>>,
    order: Seq<int>,
    from: int,
    build: Build,
)
    requires
        0 <= from,
        fields_compiled(given, order, from, build) is Ok,
    ensures
        keeps(build, fields_compiled(given, order, from, build)->Ok_0),
    decreases given, order.len() - from,
{
    if from < order.len() && 0 <= order[from] < given.len() {
        let value = given[order[from]].value.value;
        let pushed = expression_compiled(value.value, value.span, build)->Ok_0;
        lemma_expression_keeps(value.value, value.span, build);
        lemma_fields_keeps(given, order, from + 1, pushed);
        lemma_keeps_further(build, pushed, fields_compiled(given, order, from + 1, pushed)->Ok_0);
    }
}

#[verifier::rlimit(40)]
pub proof fn lemma_arms_keeps(
    variants: Seq<Positioned<MatchVariantView>>,
    from: int,
    target: TypeView,
    span: Span,
    build: Build,
    jumps: Seq<usize>,
)
    requires
        0 <= from,
        arms_compiled(variants, from, target, span, build, jumps) is Ok,
    ensures
        keeps(build, arms_compiled(variants, from, target, span, build, jumps)->Ok_0.0),
    decreases variants, variants.len() - from,
{
    if from < variants.len() {
        let variant = variants[from];
        let case = variant.value.case;
        let body = variant.value.body;
        match case.value {
            MatchCaseView::Ident(name) => {
                let framed = build.emit(variant.span.line, OpCode::PushFrame).push_scope();
                let declared = framed.declare(name, false, target, Some(case.span));
                let stored = declared.0.emit(case.span.line, OpCode::SetLocal(None, declared.1));
                lemma_declaration_keeps(framed.compiler, name, target, false, Some(case.span));
                lemma_expression_keeps(body.value, body.span, stored);
                lemma_keeps_further(
                    build,
                    stored,
                    expression_compiled(body.value, body.span, stored)->Ok_0,
                );
            },
            MatchCaseView::Value(value) => {
                let copied = build.emit(variant.span.line, OpCode::Copy);
                let compared = expression_compiled(value, case.span, copied)->Ok_0;
                let pop = compared.emit(case.span.line, OpCode::Equal).emit(
                    case.span.line,
                    OpCode::JumpIfFalse(0),
                ).emit(case.span.line, OpCode::Pop);
                let valued = expression_compiled(body.value, body.span, pop)->Ok_0;
                let left = valued.emit(case.span.line, OpCode::Jump(0));
                let exit = left.len().wrapping_sub(1);
                let patched = left.patch(compared.len().wrapping_add(1), exit);
                lemma_expression_keeps(value, case.span, copied);
                lemma_expression_keeps(body.value, body.span, pop);
                lemma_keeps_further(build, pop, valued);
                lemma_arms_keeps(variants, from + 1, target, span, patched, jumps.push(exit));
                lemma_keeps_further(
                    build,
                    patched,
                    arms_compiled(variants, from + 1, target, span, patched, jumps.push(exit))->Ok_0.0,
                );
            },
        }
    }
}

pub proof fn lemma_block_keeps(block: BlockView, span: Span, build: Build)
    requires
        block_compiled(block, span, build) is Ok,
    ensures
        keeps(build, block_compiled(block, span, build)->Ok_0),
    decreases block, 1nat,
{
    let framed = build.emit(span.line, OpCode::PushFrame).push_scope();
    let inside = statements_compiled(block.statements, 0, framed)->Ok_0;
    lemma_statements_keeps(block.statements, 0, framed);
    lemma_keeps_further(build, framed, inside);
    match block.return_statement {
        None => {},
        Some(statement) => {
            lemma_statement_keeps(statement.value, statement.span, inside);
            lemma_keeps_further(
                build,
                inside,
                statement_compiled(statement.value, statement.span, inside)->Ok_0,
            );
        },
    }
}

pub proof fn lemma_statements_keeps(
    statements: Seq<Positioned<StatementView>>,
    from: int,
    build: Build,
)
    requires
        0 <= from,
        statements_compiled(statements, from, build) is Ok,
    ensures
        keeps(build, statements_compiled(statements, from, build)->Ok_0),
    decreases statements, statements.len() - from,
{
    if from < statements.len() {
        let done = statement_compiled(statements[from].value, statements[from].span, build)->Ok_0;
        lemma_statement_keeps(statements[from].value, statements[from].span, build);
        lemma_statements_keeps(statements, from + 1, done);
        lemma_keeps_further(build, done, statements_compiled(statements, from + 1, done)->Ok_0);
    }
}

/// The body of a function is compiled with a table of its own, and shares
/// only the heap: every object keeps its place.
pub proof fn lemma_function_body_keeps(body: BlockView, body_at: Span, build: Build)
    requires
        function_body_compiled(body, body_at, build) is Ok,
    ensures
        keeps(build, function_body_compiled(body, body_at, build)->Ok_0.0),
    decreases body, 1nat,
{
    let inside = statements_compiled(body.statements, 0, build)->Ok_0;
    lemma_statements_keeps(body.statements, 0, build);
    match body.return_statement {
        None => {},
        Some(statement) => {
            lemma_statement_keeps(statement.value, statement.span, inside);
            lemma_keeps_further(
                build,
                inside,
                statement_compiled(statement.value, statement.span, inside)->Ok_0,
            );
        },
    }
}

#[verifier::rlimit(40)]
pub proof fn lemma_statement_keeps(statement: StatementView, span: Span, build: Build)
    requires
        statement_compiled(statement, span, build) is Ok,
    ensures
        keeps(build, statement_compiled(statement, span, build)->Ok_0),
    decreases statement, 0nat,
{
    match statement {
        StatementView::Expression(expression) => lemma_expression_keeps(expression, span, build),
        StatementView::Variable(variable) => {
            let ty = type_of(variable.value.value, variable.value.span, build.compiler)->Ok_0;
            let declared = build.compiler.get_or_create_var(
                variable.name.value,
                ty,
                variable.mutable.value,
                Some(span),
            );
            let start = Build { compiler: declared.0, ..build };
            lemma_declaration_keeps(
                build.compiler,
                variable.name.value,
                ty,
                variable.mutable.value,
                Some(span),
            );
            lemma_expression_keeps(variable.value.value, variable.value.span, start);
            lemma_keeps_further(
                build,
                start,
                expression_compiled(variable.value.value, variable.value.span, start)->Ok_0,
            );
        },
        StatementView::Record(_) => {},
        StatementView::Struct(_) => {},
        StatementView::Func(func) => {
            let inner = Build {
                compiler: function_scope(func, span),
                chunk: ChunkView::empty(),
                heap: build.heap,
            };
            lemma_function_body_keeps(func.body.value, func.body.span, inner);
        },
        StatementView::ForIn(_) => {},
        StatementView::WhileLoop(_) => {},
    }
}

/// A program that is compiled leaves every variable at its slot, with its name
/// and its depth, and every object at its place on the heap: what was compiled
/// before can go on reading them.
pub proof fn lemma_program_keeps(
    statements: Seq<Positioned<StatementView>>,
    return_statement: Option<Positioned<StatementView>>,
    compiler: CompilerView,
    heap: Seq<ObjectView>,
)
    requires
        program_compiled(statements, return_statement, compiler, heap) is Ok,
    ensures
        ({
            let build = program_compiled(statements, return_statement, compiler, heap)->Ok_0;
            &&& keeps_variables(compiler, build.compiler)
            &&& heap.len() <= build.heap.len()
            &&& forall|handle: int|
                0 <= handle < heap.len() ==> #[trigger] build.heap[handle] == heap[handle]
        }),
{
    let start = Build { compiler, chunk: ChunkView::empty(), heap };
    let done = statements_compiled(statements, 0, start)->Ok_0;
    lemma_statements_keeps(statements, 0, start);
    match return_statement {
        None => {},
        Some(statement) => {
            lemma_statement_keeps(statement.value, statement.span, done);
            lemma_keeps_further(
                start,
                done,
                statement_compiled(statement.value, statement.span, done)->Ok_0,
            );
        },
    }
}

} // verus!
