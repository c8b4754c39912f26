//! Where compiled code holds `Halt`: at its end, and nowhere else.

use crate::compiler::rules::{
    arguments_compiled, arms_compiled, block_compiled, declaration_order, expression_compiled,
    fields_compiled, function_body_compiled, items_compiled, operator_compiled, program_compiled,
    property_of, statement_compiled, statements_compiled, type_of,
};
use crate::compiler::state::{patched, patched_all, Build, CompilerView};
use crate::parser::ast::Operator;
use crate::parser::model::{
    BlockView, ExpressionView, InstanceArgsView, MatchCaseView, MatchVariantView, StatementView,
    StructFieldValueView,
};
use crate::shared::{Positioned, Span};
use crate::typing::TypeView;
use crate::vm::chunk::ChunkView;
use crate::vm::op::OpCode;
use crate::vm::value::{ObjectView, Value};
use vstd::prelude::*;

verus! {

/// Whether no instruction of the code is `Halt`.
pub open spec fn halt_free(code: Seq<(usize, OpCode)>) -> bool {
    forall|place: int| 0 <= place < code.len() ==> (#[trigger] code[place]).1 != OpCode::Halt
}

/// One more instruction that is not `Halt` leaves the code without `Halt`.
pub proof fn lemma_emit_halt_free(build: Build, line: usize, op: OpCode)
    requires
        halt_free(build.chunk.code),
        op != OpCode::Halt,
    ensures
        halt_free(build.emit(line, op).chunk.code),
        build.emit(line, op).push_scope().chunk == build.emit(line, op).chunk,
        build.emit(line, op).pop_scope().chunk == build.emit(line, op).chunk,
{
    let after = build.emit(line, op).chunk.code;
    assert forall|place: int| 0 <= place < after.len() implies (#[trigger] after[place]).1
        != OpCode::Halt by {
        if place < build.chunk.code.len() {
            assert(after[place] == build.chunk.code[place]);
        }
    }
}

/// A constant and the instruction that loads it leave the code without `Halt`.
pub proof fn lemma_load_halt_free(build: Build, line: usize, value: Value)
    requires
        halt_free(build.chunk.code),
    ensures
        halt_free(build.load(line, value).chunk.code),
{
    let after = build.load(line, value).chunk.code;
    assert forall|place: int| 0 <= place < after.len() implies (#[trigger] after[place]).1
        != OpCode::Halt by {
        if place < build.chunk.code.len() {
            assert(after[place] == build.chunk.code[place]);
        }
    }
}

/// A declaration that stores an object leaves the code without `Halt`.
pub proof fn lemma_define_halt_free(build: Build, line: usize, object: ObjectView, slot: usize)
    requires
        halt_free(build.chunk.code),
    ensures
        halt_free(build.define(line, object, slot).chunk.code),
{
    let stored = Build { heap: build.heap.push(object), ..build };
    lemma_load_halt_free(stored, line, Value::Object(build.heap.len() as usize));
    lemma_emit_halt_free(
        stored.load(line, Value::Object(build.heap.len() as usize)),
        line,
        OpCode::SetLocal(None, slot),
    );
}

/// A jump that is set stays a jump.
pub proof fn lemma_patch_halt_free(build: Build, start: usize, end: usize)
    requires
        halt_free(build.chunk.code),
    ensures
        halt_free(build.patch(start, end).chunk.code),
{
    let after = build.patch(start, end).chunk.code;
    assert forall|place: int| 0 <= place < after.len() implies (#[trigger] after[place]).1
        != OpCode::Halt by {
        if place != start {
            assert(after[place] == build.chunk.code[place]);
        } else {
            assert(build.chunk.code[place].1 != OpCode::Halt);
        }
    }
}

/// The same of many jumps.
pub proof fn lemma_patch_all_halt_free(
    code: Seq<(usize, OpCode)>,
    jumps: Seq<usize>,
    from: int,
    end: usize,
)
    requires
        0 <= from,
        halt_free(code),
    ensures
        halt_free(patched_all(code, jumps, from, end)),
    decreases jumps.len() - from,
{
    if from < jumps.len() {
        let build = Build {
            compiler: CompilerView::fresh(),
            chunk: ChunkView { code, constants: Seq::empty() },
            heap: Seq::empty(),
        };
        lemma_patch_halt_free(build, jumps[from], end);
        lemma_patch_all_halt_free(patched(code, jumps[from], end), jumps, from + 1, end);
    }
}

/// No expression compiles to `Halt`.
#[verifier::rlimit(40)]
pub proof fn lemma_expression_halt_free(expression: ExpressionView, span: Span, build: Build)
    requires
        expression_compiled(expression, span, build) is Ok,
        halt_free(build.chunk.code),
    ensures
        halt_free(expression_compiled(expression, span, build)->Ok_0.chunk.code),
    decreases expression, 1nat,
{
    match expression {
        ExpressionView::Literal(literal) => {
            lemma_load_halt_free(
                Build { heap: expression_compiled(expression, span, build)->Ok_0.heap, ..build },
                span.line,
                expression_compiled(expression, span, build)->Ok_0.chunk.constants.last(),
            );
        },
        ExpressionView::Ident(name) => {
            let found = build.compiler.get_var(span, name)->Ok_0;
            lemma_emit_halt_free(
                build,
                span.line,
                OpCode::GetLocal(
                    crate::compiler::state::depth_delta(
                        found.1.depth,
                        build.compiler.scope_depth,
                    ),
                    found.0 as usize,
                ),
            );
        },
        ExpressionView::Block(block) => lemma_block_halt_free(block, span, build),
        ExpressionView::FunctionCall { target, args } => {
            let parameters = type_of(target.value, target.span, build.compiler)->Ok_0->Function_args;
            let called = expression_compiled(target.value, target.span, build)->Ok_0;
            let passed = arguments_compiled(args.value, parameters, 0, called)->Ok_0;
            lemma_expression_halt_free(target.value, target.span, build);
            lemma_arguments_halt_free(args.value, parameters, 0, called);
            lemma_emit_halt_free(passed, span.line, OpCode::Call(args.value.len() as usize));
        },
        ExpressionView::IfElse { .. } => lemma_conditional_halt_free(expression, span, build),
        ExpressionView::Match { scrutinee, variants } => {
            let target = type_of(scrutinee.value, scrutinee.span, build.compiler)->Ok_0;
            let pushed = expression_compiled(scrutinee.value, scrutinee.span, build)->Ok_0;
            let read = arms_compiled(variants, 0, target, span, pushed, Seq::empty())->Ok_0;
            lemma_expression_halt_free(scrutinee.value, scrutinee.span, build);
            lemma_arms_halt_free(variants, 0, target, span, pushed, Seq::empty());
            lemma_patch_all_halt_free(
                read.0.chunk.code,
                read.1,
                0,
                read.0.len().wrapping_sub(1),
            );
        },
        ExpressionView::Binary { .. } => lemma_binary_halt_free(expression, span, build),
        ExpressionView::Index { object, index } => {
            let target = type_of(object.value, object.span, build.compiler)->Ok_0;
            let pushed = expression_compiled(object.value, object.span, build)->Ok_0;
            lemma_expression_halt_free(object.value, object.span, build);
            lemma_emit_halt_free(
                pushed,
                index.span.line,
                OpCode::GetProperty(property_of(target, object.span, index)->Ok_0.0),
            );
        },
        ExpressionView::NewInstance { class, values } => {
            let found = build.compiler.get_var(class.span, class.value)->Ok_0;
            let pushed = match values.value {
                InstanceArgsView::Record(given) => {
                    lemma_items_halt_free(given, 0, build);
                    items_compiled(given, 0, build)->Ok_0
                },
                InstanceArgsView::Struct(given) => {
                    let order = declaration_order(given, found.1.ty->Struct_fields);
                    lemma_fields_halt_free(given, order, 0, build);
                    fields_compiled(given, order, 0, build)->Ok_0
                },
            };
            let read = OpCode::GetLocal(
                crate::compiler::state::depth_delta(found.1.depth, pushed.compiler.scope_depth),
                found.0 as usize,
            );
            lemma_emit_halt_free(pushed, span.line, read);
            lemma_emit_halt_free(pushed.emit(span.line, read), span.line, OpCode::CreateInstance);
        },
    }
}

#[verifier::rlimit(40)]
pub proof fn lemma_conditional_halt_free(expression: ExpressionView, span: Span, build: Build)
    requires
        expression is IfElse,
        expression_compiled(expression, span, build) is Ok,
        halt_free(build.chunk.code),
    ensures
        halt_free(expression_compiled(expression, span, build)->Ok_0.chunk.code),
    decreases expression, 0nat,
{
    let condition = expression->IfElse_condition;
    let block = expression->IfElse_block;
    let tested = expression_compiled(condition.value, condition.span, build)->Ok_0;
    let jump = tested.emit(span.line, OpCode::JumpIfFalse(0));
    let taken = block_compiled(block.value, block.span, jump)->Ok_0;
    let skipping = taken.patch(tested.len(), taken.len().wrapping_sub(1));
    lemma_expression_halt_free(condition.value, condition.span, build);
    lemma_emit_halt_free(tested, span.line, OpCode::JumpIfFalse(0));
    lemma_block_halt_free(block.value, block.span, jump);
    lemma_patch_halt_free(taken, tested.len(), taken.len().wrapping_sub(1));
    match expression->IfElse_else_block {
        None => {},
        Some(other) => {
            let entered = skipping.patch(tested.len(), taken.len());
            let over = entered.emit(span.line, OpCode::Jump(0));
            let both = expression_compiled(other.value, other.span, over)->Ok_0;
            lemma_patch_halt_free(skipping, tested.len(), taken.len());
            lemma_emit_halt_free(entered, span.line, OpCode::Jump(0));
            lemma_expression_halt_free(other.value, other.span, over);
            lemma_patch_halt_free(both, taken.len(), both.len().wrapping_sub(1));
        },
    }
}

#[verifier::rlimit(40)]
pub proof fn lemma_binary_halt_free(expression: ExpressionView, span: Span, build: Build)
    requires
        expression is Binary,
        expression_compiled(expression, span, build) is Ok,
        halt_free(build.chunk.code),
    ensures
        halt_free(expression_compiled(expression, span, build)->Ok_0.chunk.code),
    decreases expression, 0nat,
{
    let lhs = expression->Binary_lhs;
    let rhs = expression->Binary_rhs;
    let operator = expression->Binary_operator;
    if operator.value == Operator::Assign {
        match lhs.value {
            ExpressionView::Ident(name) => {
                let found = build.compiler.get_var(lhs.span, name)->Ok_0;
                let valued = expression_compiled(rhs.value, rhs.span, build)->Ok_0;
                lemma_expression_halt_free(rhs.value, rhs.span, build);
                lemma_emit_halt_free(
                    valued,
                    lhs.span.line,
                    OpCode::SetLocal(Some(found.1.depth), found.0 as usize),
                );
            },
            ExpressionView::Index { object, index } => {
                let target = type_of(object.value, object.span, build.compiler)->Ok_0;
                let pushed = expression_compiled(object.value, object.span, build)->Ok_0;
                let valued = expression_compiled(rhs.value, rhs.span, pushed)->Ok_0;
                lemma_expression_halt_free(object.value, object.span, build);
                lemma_expression_halt_free(rhs.value, rhs.span, pushed);
                lemma_emit_halt_free(
                    valued,
                    index.span.line,
                    OpCode::SetProperty(property_of(target, object.span, index)->Ok_0.0),
                );
            },
            other => {
                lemma_expression_halt_free(other, lhs.span, build);
            },
        }
    } else {
        let left = expression_compiled(lhs.value, lhs.span, build)->Ok_0;
        lemma_expression_halt_free(lhs.value, lhs.span, build);
        if operator.value == Operator::And {
            let jump = left.emit(span.line, OpCode::JumpIfFalse(0));
            let pop = jump.emit(span.line, OpCode::Pop);
            let both = expression_compiled(rhs.value, rhs.span, pop)->Ok_0;
            lemma_emit_halt_free(left, span.line, OpCode::JumpIfFalse(0));
            lemma_emit_halt_free(jump, span.line, OpCode::Pop);
            lemma_expression_halt_free(rhs.value, rhs.span, pop);
            lemma_patch_halt_free(both, left.len(), both.len());
        } else if operator.value == Operator::Or {
            let jump = left.emit(span.line, OpCode::JumpIfFalse(0));
            let over = jump.emit(span.line, OpCode::Jump(0));
            let pop = over.emit(span.line, OpCode::Pop);
            let both = expression_compiled(rhs.value, rhs.span, pop)->Ok_0;
            let first = both.patch(left.len(), left.len().wrapping_add(1));
            lemma_emit_halt_free(left, span.line, OpCode::JumpIfFalse(0));
            lemma_emit_halt_free(jump, span.line, OpCode::Jump(0));
            lemma_emit_halt_free(over, span.line, OpCode::Pop);
            lemma_expression_halt_free(rhs.value, rhs.span, pop);
            lemma_patch_halt_free(both, left.len(), left.len().wrapping_add(1));
            lemma_patch_halt_free(first, left.len().wrapping_add(1), both.len());
        } else {
            let both = expression_compiled(rhs.value, rhs.span, left)->Ok_0;
            lemma_expression_halt_free(rhs.value, rhs.span, left);
            lemma_operator_halt_free(operator.value, operator.span.line, both);
        }
    }
}

/// No operator compiles to `Halt`.
pub proof fn lemma_operator_halt_free(operator: Operator, line: usize, build: Build)
    requires
        halt_free(build.chunk.code),
    ensures
        halt_free(operator_compiled(operator, line, build).chunk.code),
{
    match operator {
        Operator::Add => lemma_emit_halt_free(build, line, OpCode::Add),
        Operator::Sub => lemma_emit_halt_free(build, line, OpCode::Sub),
        Operator::Mul => lemma_emit_halt_free(build, line, OpCode::Mul),
        Operator::Div => lemma_emit_halt_free(build, line, OpCode::Div),
        Operator::Equal => lemma_emit_halt_free(build, line, OpCode::Equal),
        Operator::NotEqual => {
            lemma_emit_halt_free(build, line, OpCode::Equal);
            lemma_emit_halt_free(build.emit(line, OpCode::Equal), line, OpCode::Negate);
        },
        Operator::LessThan => lemma_emit_halt_free(build, line, OpCode::Less),
        Operator::GreaterThan => lemma_emit_halt_free(build, line, OpCode::Greater),
        _ => {},
    }
}

pub proof fn lemma_arguments_halt_free(
    args: Seq<Positioned<ExpressionView>>,
    parameters: Seq<TypeView>,
    from: int,
    build: Build,
)
    requires
        0 <= from,
        arguments_compiled(args, parameters, from, build) is Ok,
        halt_free(build.chunk.code),
    ensures
        halt_free(arguments_compiled(args, parameters, from, build)->Ok_0.chunk.code),
    decreases args, args.len() - from,
{
    if from < args.len() {
        let pushed = expression_compiled(args[from].value, args[from].span, build)->Ok_0;
        lemma_expression_halt_free(args[from].value, args[from].span, build);
        lemma_arguments_halt_free(args, parameters, from + 1, pushed);
    }
}

pub proof fn lemma_items_halt_free(given: Seq<Positioned<ExpressionView>>, from: int, build: Build)
    requires
        0 <= from,
        items_compiled(given, from, build) is Ok,
        halt_free(build.chunk.code),
    ensures
        halt_free(items_compiled(given, from, build)->Ok_0.chunk.code),
    decreases given, given.len() - from,
{
    if from < given.len() {
        let pushed = expression_compiled(given[from].value, given[from].span, build)->Ok_0;
        lemma_expression_halt_free(given[from].value, given[from].span, build);
        lemma_items_halt_free(given, from + 1, pushed);
    }
}

pub proof fn lemma_fields_halt_free(
    given: Seq<Positioned<StructFieldValueView>>,
    order: Seq<int>,
    from: int,
    build: Build,
)
    requires
        0 <= from,
        fields_compiled(given, order, from, build) is Ok,
        halt_free(build.chunk.code),
    ensures
        halt_free(fields_compiled(given, order, from, build)->Ok_0.chunk.code),
    decreases given, order.len() - from,
{
    if from < order.len() && 0 <= order[from] < given.len() {
        let value = given[order[from]].value.value;
        let pushed = expression_compiled(value.value, value.span, build)->Ok_0;
        lemma_expression_halt_free(value.value, value.span, build);
        lemma_fields_halt_free(given, order, from + 1, pushed);
    }
}

#[verifier::rlimit(40)]
pub proof fn lemma_arms_halt_free(
    variants: Seq<Positioned<MatchVariantView>>,
    from: int,
    target: TypeView,
    span: Span,
    build: Build,
    jumps: Seq<usize>,
)
    requires
        0 <= from,
        arms_compiled(variants, from, target, span, build, jumps) is Ok,
        halt_free(build.chunk.code),
    ensures
        halt_free(arms_compiled(variants, from, target, span, build, jumps)->Ok_0.0.chunk.code),
    decreases variants, variants.len() - from,
{
    if from < variants.len() {
        let variant = variants[from];
        let case = variant.value.case;
        let body = variant.value.body;
        match case.value {
            MatchCaseView::Ident(name) => {
                let framed = build.emit(variant.span.line, OpCode::PushFrame);
                let declared = framed.push_scope().declare(name, false, target, Some(case.span));
                let stored = declared.0.emit(case.span.line, OpCode::SetLocal(None, declared.1));
                let valued = expression_compiled(body.value, body.span, stored)->Ok_0;
                let returned = valued.emit(variant.span.line, OpCode::Return);
                lemma_emit_halt_free(build, variant.span.line, OpCode::PushFrame);
                lemma_emit_halt_free(declared.0, case.span.line, OpCode::SetLocal(None, declared.1));
                lemma_expression_halt_free(body.value, body.span, stored);
                lemma_emit_halt_free(valued, variant.span.line, OpCode::Return);
                lemma_emit_halt_free(returned.pop_scope(), variant.span.line, OpCode::PopFrame);
            },
            MatchCaseView::Value(value) => {
                let copied = build.emit(variant.span.line, OpCode::Copy);
                let compared = expression_compiled(value, case.span, copied)->Ok_0;
                let equal = compared.emit(case.span.line, OpCode::Equal);
                let jump = equal.emit(case.span.line, OpCode::JumpIfFalse(0));
                let pop = jump.emit(case.span.line, OpCode::Pop);
                let valued = expression_compiled(body.value, body.span, pop)->Ok_0;
                let left = valued.emit(case.span.line, OpCode::Jump(0));
                let exit = left.len().wrapping_sub(1);
                let patched = left.patch(compared.len().wrapping_add(1), exit);
                lemma_emit_halt_free(build, variant.span.line, OpCode::Copy);
                lemma_expression_halt_free(value, case.span, copied);
                lemma_emit_halt_free(compared, case.span.line, OpCode::Equal);
                lemma_emit_halt_free(equal, case.span.line, OpCode::JumpIfFalse(0));
                lemma_emit_halt_free(jump, case.span.line, OpCode::Pop);
                lemma_expression_halt_free(body.value, body.span, pop);
                lemma_emit_halt_free(valued, case.span.line, OpCode::Jump(0));
                lemma_patch_halt_free(left, compared.len().wrapping_add(1), exit);
                lemma_arms_halt_free(variants, from + 1, target, span, patched, jumps.push(exit));
            },
        }
    }
}

#[verifier::rlimit(40)]
pub proof fn lemma_block_halt_free(block: BlockView, span: Span, build: Build)
    requires
        block_compiled(block, span, build) is Ok,
        halt_free(build.chunk.code),
    ensures
        halt_free(block_compiled(block, span, build)->Ok_0.chunk.code),
    decreases block, 1nat,
{
    let framed = build.emit(span.line, OpCode::PushFrame);
    let inside = statements_compiled(block.statements, 0, framed.push_scope())->Ok_0;
    lemma_emit_halt_free(build, span.line, OpCode::PushFrame);
    lemma_statements_halt_free(block.statements, 0, framed.push_scope());
    match block.return_statement {
        None => {
            lemma_emit_halt_free(inside.pop_scope(), span.line, OpCode::PopFrame);
        },
        Some(statement) => {
            let valued = statement_compiled(statement.value, statement.span, inside)->Ok_0;
            let returned = valued.emit(span.line, OpCode::Return);
            lemma_statement_halt_free(statement.value, statement.span, inside);
            lemma_emit_halt_free(valued, span.line, OpCode::Return);
            lemma_emit_halt_free(returned.pop_scope(), span.line, OpCode::PopFrame);
        },
    }
}

pub proof fn lemma_statements_halt_free(
    statements: Seq<Positioned<StatementView>>,
    from: int,
    build: Build,
)
    requires
        0 <= from,
        statements_compiled(statements, from, build) is Ok,
        halt_free(build.chunk.code),
    ensures
        halt_free(statements_compiled(statements, from, build)->Ok_0.chunk.code),
    decreases statements, statements.len() - from,
{
    if from < statements.len() {
        let done = statement_compiled(statements[from].value, statements[from].span, build)->Ok_0;
        lemma_statement_halt_free(statements[from].value, statements[from].span, build);
        lemma_statements_halt_free(statements, from + 1, done);
    }
}

/// No statement compiles to `Halt`: the `Halt` of a function is in the code of
/// the function, which is a constant of its own.
#[verifier::rlimit(40)]
pub proof fn lemma_statement_halt_free(statement: StatementView, span: Span, build: Build)
    requires
        statement_compiled(statement, span, build) is Ok,
        halt_free(build.chunk.code),
    ensures
        halt_free(statement_compiled(statement, span, build)->Ok_0.chunk.code),
    decreases statement, 0nat,
{
    let done = statement_compiled(statement, span, build)->Ok_0;
    match statement {
        StatementView::Expression(expression) => lemma_expression_halt_free(
            expression,
            span,
            build,
        ),
        StatementView::Variable(variable) => {
            let ty = type_of(variable.value.value, variable.value.span, build.compiler)->Ok_0;
            let declared = build.compiler.get_or_create_var(
                variable.name.value,
                ty,
                variable.mutable.value,
                Some(span),
            );
            let start = Build { compiler: declared.0, ..build };
            let valued = expression_compiled(variable.value.value, variable.value.span, start)->Ok_0;
            lemma_expression_halt_free(variable.value.value, variable.value.span, start);
            lemma_emit_halt_free(valued, variable.value.span.line, OpCode::SetLocal(None, declared.1));
        },
        StatementView::Record(record) => {
            let types = crate::compiler::rules::record_types(record.fields.value);
            let declared = build.declare(
                record.name.value,
                false,
                TypeView::Record { name: record.name.value, items: types },
                Some(span),
            );
            lemma_define_halt_free(
                declared.0,
                span.line,
                ObjectView::Record { name: record.name.value, types },
                declared.1,
            );
        },
        StatementView::Struct(structure) => {
            let fields = crate::compiler::rules::struct_fields(structure.fields.value);
            let declared = build.declare(
                structure.name.value,
                false,
                TypeView::Struct { name: structure.name.value, fields },
                Some(span),
            );
            lemma_define_halt_free(
                declared.0,
                span.line,
                ObjectView::Struct { name: structure.name.value, fields },
                declared.1,
            );
        },
        StatementView::Func(func) => {
            let declared = build.declare(
                func.name.value,
                false,
                crate::compiler::rules::function_type(func),
                Some(span),
            );
            let stored = Build { heap: done.heap.drop_last(), ..declared.0 };
            lemma_define_halt_free(stored, span.line, done.heap.last(), declared.1);
        },
        StatementView::ForIn(_) => {},
        StatementView::WhileLoop(_) => {},
    }
}

/// Whether the code ends in `Halt` and holds no other.
pub open spec fn halts_at_end_only(code: Seq<(usize, OpCode)>) -> bool {
    &&& code.len() > 0
    &&& code.last().1 == OpCode::Halt
    &&& forall|place: int| 0 <= place < code.len() - 1 ==> (#[trigger] code[place]).1 != OpCode::Halt
}

/// The code of a program ends in `Halt` and holds no other `Halt`, and so does
/// its listing, which holds the instructions in their order.
pub proof fn lemma_program_halts_at_end_only(
    statements: Seq<Positioned<StatementView>>,
    return_statement: Option<Positioned<StatementView>>,
    compiler: CompilerView,
    heap: Seq<ObjectView>,
)
    requires
        program_compiled(statements, return_statement, compiler, heap) is Ok,
    ensures
        ({
            let chunk = program_compiled(statements, return_statement, compiler, heap)->Ok_0.chunk;
            &&& halts_at_end_only(chunk.code)
            &&& chunk.listing().len() == chunk.code.len()
            &&& chunk.listing().last().value == OpCode::Halt
            &&& forall|place: int|
                0 <= place < chunk.code.len() - 1 ==> (#[trigger] chunk.listing()[place]).value
                    != OpCode::Halt
        }),
{
    let start = Build { compiler, chunk: ChunkView::empty(), heap };
    let done = statements_compiled(statements, 0, start)->Ok_0;
    lemma_statements_halt_free(statements, 0, start);
    let before = match return_statement {
        None => done,
        Some(statement) => {
            let valued = statement_compiled(statement.value, statement.span, done)->Ok_0;
            lemma_statement_halt_free(statement.value, statement.span, done);
            lemma_emit_halt_free(valued, statement.span.line, OpCode::Return);
            valued.emit(statement.span.line, OpCode::Return)
        },
    };
    let chunk = program_compiled(statements, return_statement, compiler, heap)->Ok_0.chunk;
    assert(chunk.code == before.chunk.code.push((0usize, OpCode::Halt)));
    assert forall|place: int| 0 <= place < chunk.code.len() - 1 implies (
    #[trigger] chunk.code[place]).1 != OpCode::Halt by {
        assert(chunk.code[place] == before.chunk.code[place]);
    }
    assert forall|place: int| 0 <= place < chunk.code.len() - 1 implies (
    #[trigger] chunk.listing()[place]).value != OpCode::Halt by {
        assert(chunk.listing()[place].value == chunk.code[place].1);
    }
}

/// The same of the body of a function.
pub proof fn lemma_function_halts_at_end_only(body: BlockView, body_at: Span, build: Build)
    requires
        function_body_compiled(body, body_at, build) is Ok,
        halt_free(build.chunk.code),
    ensures
        halts_at_end_only(function_body_compiled(body, body_at, build)->Ok_0.0.chunk.code),
{
    let done = statements_compiled(body.statements, 0, build)->Ok_0;
    lemma_statements_halt_free(body.statements, 0, build);
    let before = match body.return_statement {
        None => done.pop_scope(),
        Some(statement) => {
            let valued = statement_compiled(statement.value, statement.span, done)->Ok_0;
            lemma_statement_halt_free(statement.value, statement.span, done);
            lemma_emit_halt_free(valued, body_at.line, OpCode::Return);
            valued.emit(body_at.line, OpCode::Return).pop_scope()
        },
    };
    let code = function_body_compiled(body, body_at, build)->Ok_0.0.chunk.code;
    assert(code == before.chunk.code.push((0usize, OpCode::Halt)));
    assert forall|place: int| 0 <= place < code.len() - 1 implies (#[trigger] code[place]).1
        != OpCode::Halt by {
        assert(code[place] == before.chunk.code[place]);
    }
}

} // verus!
