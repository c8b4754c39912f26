//! Where the jumps of compiled code lead.

use crate::compiler::rules::{
    arguments_compiled, arms_compiled, block_compiled, block_supported, declaration_order,
    expression_compiled, expression_supported, expressions_supported, fields_compiled,
    fields_supported, function_body_compiled, items_compiled, operator_compiled, program_compiled,
    program_supported, property_of, statement_compiled, statement_supported, statements_compiled,
    statements_supported, type_of, arms_supported,
};
use crate::compiler::state::{
    jump_distance, patched, patched_all, Build, CompileErrorView, CompilerView,
};
use crate::parser::ast::Operator;
use crate::parser::model::{
    BlockView, ExpressionView, InstanceArgsView, MatchCaseView, MatchVariantView, StatementView,
    StructFieldValueView,
};
use crate::shared::{Positioned, Span};
use crate::typing::TypeView;
use crate::vm::chunk::ChunkView;
use crate::vm::op::OpCode;
use crate::vm::value::{ObjectView, Value};
use crate::compiler::state::Failure;
use vstd::prelude::*;

verus! {

/// Whether the instruction at `place`, if it is a jump, leads forward and at
/// most to `limit`. A jump leads to the instruction behind the one that lies
/// its offset away, as the machine goes on from there.
pub open spec fn jump_within(code: Seq<(usize, OpCode)>, place: int, limit: int) -> bool {
    match code[place].1 {
        OpCode::Jump(offset) => place < place + offset + 1 <= limit,
        OpCode::JumpIfFalse(offset) => place + offset + 1 <= limit,
        _ => true,
    }
}

/// Whether the code of `later` is that of `earlier` with more behind it, and
/// every jump in what was added leads forward and at most `slack` behind the
/// end of the code. Jumps are told only of code that is not longer than the
/// largest offset.
pub open spec fn extends(earlier: Build, later: Build, slack: int) -> bool {
    let before = earlier.chunk.code;
    let after = later.chunk.code;
    &&& before.len() <= after.len()
    &&& after.len() <= isize::MAX ==> {
        &&& forall|i: int| 0 <= i < before.len() ==> #[trigger] after[i] == before[i]
        &&& forall|place: int|
            before.len() <= place < after.len() ==> #[trigger] jump_within(
                after,
                place,
                after.len() + slack,
            )
    }
}

/// Code extends itself.
pub proof fn lemma_extends_itself(build: Build, other: Build, slack: int)
    requires
        build.chunk.code == other.chunk.code,
        slack >= 0,
    ensures
        extends(build, other, slack),
{
}

/// More slack is no harm.
pub proof fn lemma_extends_loosely(earlier: Build, later: Build, slack: int, more: int)
    requires
        extends(earlier, later, slack),
        slack <= more,
    ensures
        extends(earlier, later, more),
{
    let after = later.chunk.code;
    if after.len() <= isize::MAX {
        assert forall|place: int| earlier.chunk.code.len() <= place < after.len() implies #[trigger] jump_within(
            after,
            place,
            after.len() + more,
        ) by {
            assert(jump_within(after, place, after.len() + slack));
        }
    }
}

/// An instruction that is no jump, or a jump that is still to be set, extends
/// the code.
pub proof fn lemma_emit_extends(build: Build, line: usize, op: OpCode)
    requires
        op matches OpCode::Jump(offset) ==> offset == 0,
        op matches OpCode::JumpIfFalse(offset) ==> offset == 0,
    ensures
        extends(build, build.emit(line, op), 0),
        build.emit(line, op).chunk.code.len() == build.chunk.code.len() + 1,
        build.emit(line, op).compiler == build.compiler,
{
}

/// What extends the code, and is then extended, extends it, where what is
/// added last makes up for the slack of what was added first.
#[verifier::rlimit(40)]
pub proof fn lemma_extends_further(first: Build, second: Build, third: Build, slack: int, last: int)
    requires
        extends(first, second, slack),
        extends(second, third, last),
        second.chunk.code.len() + slack <= third.chunk.code.len() + last,
    ensures
        extends(first, third, last),
{
    let a = first.chunk.code;
    let b = second.chunk.code;
    let c = third.chunk.code;
    if c.len() <= isize::MAX {
        assert forall|i: int| 0 <= i < a.len() implies #[trigger] c[i] == a[i] by {
            assert(c[i] == b[i]);
            assert(b[i] == a[i]);
        }
        assert forall|place: int| a.len() <= place < c.len() implies #[trigger] jump_within(
            c,
            place,
            c.len() + last,
        ) by {
            if place < b.len() {
                assert(c[place] == b[place]);
                assert(jump_within(b, place, b.len() + slack));
            } else {
                assert(jump_within(c, place, c.len() + last));
            }
        }
    }
}

/// A jump that is set to lead to `end` leads to the instruction behind `end`.
/// Where that is within the slack, the code still extends what it extended.
#[verifier::rlimit(40)]
pub proof fn lemma_patch_extends(earlier: Build, later: Build, start: usize, end: usize, slack: int)
    requires
        slack <= 1,
        extends(earlier, later, slack),
        later.chunk.code.len() <= isize::MAX ==> earlier.chunk.code.len() <= start && start
            <= end && end + 1 <= later.chunk.code.len() + slack,
    ensures
        extends(earlier, later.patch(start, end), slack),
        later.patch(start, end).chunk.code.len() == later.chunk.code.len(),
        later.patch(start, end).compiler == later.compiler,
{
    let before = later.chunk.code;
    let after = later.patch(start, end).chunk.code;
    assert(after.len() == before.len());
    if after.len() <= isize::MAX {
        assert(end <= isize::MAX);
        if start < before.len() {
            assert(jump_distance(start, end) == end - start);
        }
        assert forall|i: int| 0 <= i < earlier.chunk.code.len() implies #[trigger] after[i]
            == earlier.chunk.code[i] by {
            assert(after[i] == before[i]);
            assert(before[i] == earlier.chunk.code[i]);
        }
        assert forall|place: int|
            earlier.chunk.code.len() <= place < after.len() implies #[trigger] jump_within(
            after,
            place,
            after.len() + slack,
        ) by {
            assert(jump_within(before, place, before.len() + slack));
        }
    }
}

/// The same of many jumps that are set to lead to one place.
pub proof fn lemma_patch_all_extends(
    earlier: Build,
    later: Build,
    jumps: Seq<usize>,
    from: int,
    end: usize,
    slack: int,
)
    requires
        0 <= from,
        slack <= 1,
        extends(earlier, later, slack),
        later.chunk.code.len() <= isize::MAX ==> end + 1 <= later.chunk.code.len() + slack
            && forall|k: int|
            from <= k < jumps.len() ==> earlier.chunk.code.len() <= #[trigger] jumps[k] <= end,
    ensures
        extends(
            earlier,
            Build {
                chunk: crate::vm::chunk::ChunkView {
                    code: patched_all(later.chunk.code, jumps, from, end),
                    ..later.chunk
                },
                ..later
            },
            slack,
        ),
        patched_all(later.chunk.code, jumps, from, end).len() == later.chunk.code.len(),
    decreases jumps.len() - from,
{
    if from < jumps.len() {
        lemma_patch_extends(earlier, later, jumps[from], end, slack);
        lemma_patch_all_extends(earlier, later.patch(jumps[from], end), jumps, from + 1, end, slack);
    }
}

/// Whether the code of an expression ends in a jump that leads one behind it:
/// `&&` and `||` do, and so does what ends in one of them.
pub open spec fn loose(expression: ExpressionView) -> bool
    decreases expression,
{
    match expression {
        ExpressionView::Binary { lhs, operator, .. } => operator.value == Operator::And
            || operator.value == Operator::Or || (operator.value == Operator::Assign && !(
        lhs.value is Ident) && !(lhs.value is Index) && loose(lhs.value)),
        ExpressionView::IfElse { else_block: Some(other), .. } => loose(other.value),
        ExpressionView::Match { scrutinee, variants } => variants.len() == 0 && loose(
            scrutinee.value,
        ),
        _ => false,
    }
}

/// How far behind its code the jumps of an expression may lead.
pub open spec fn slack_of(expression: ExpressionView) -> int {
    if loose(expression) {
        1
    } else {
        0
    }
}

/// How far behind its code the jumps of a statement may lead.
pub open spec fn statement_slack(statement: StatementView) -> int {
    match statement {
        StatementView::Expression(expression) => slack_of(expression),
        _ => 0,
    }
}

/// How far behind their code the jumps of the statements from `from` on may
/// lead: as far as those of the last one.
pub open spec fn statements_slack(statements: Seq<Positioned<StatementView>>, from: int) -> int {
    if 0 <= from < statements.len() {
        statement_slack(statements.last().value)
    } else {
        0
    }
}

/// The code of a literal and of a read is one instruction that is no jump.
pub proof fn lemma_leaf_jumps(expression: ExpressionView, span: Span, build: Build)
    requires
        expression is Literal || expression is Ident,
        expression_compiled(expression, span, build) is Ok,
    ensures
        extends(build, expression_compiled(expression, span, build)->Ok_0, 0),
        expression_compiled(expression, span, build)->Ok_0.chunk.code.len()
            == build.chunk.code.len() + 1,
{
}

/// The code of an expression extends the code, with jumps that lead into it or
/// as far behind it as the expression is loose; and it is at least one
/// instruction.
pub proof fn lemma_expression_jumps(expression: ExpressionView, span: Span, build: Build)
    requires
        expression_compiled(expression, span, build) is Ok,
        expression_supported(expression),
    ensures
        extends(
            build,
            expression_compiled(expression, span, build)->Ok_0,
            slack_of(expression),
        ),
        expression_compiled(expression, span, build)->Ok_0.chunk.code.len()
            > build.chunk.code.len(),
    decreases expression, 1nat,
{
    match expression {
        ExpressionView::Literal(_) => lemma_leaf_jumps(expression, span, build),
        ExpressionView::Ident(_) => lemma_leaf_jumps(expression, span, build),
        ExpressionView::Block(block) => lemma_block_jumps(block, span, build),
        ExpressionView::FunctionCall { .. } => lemma_call_jumps(expression, span, build),
        ExpressionView::IfElse { .. } => lemma_conditional_jumps(expression, span, build),
        ExpressionView::Match { .. } => lemma_match_jumps(expression, span, build),
        ExpressionView::Binary { operator, .. } => {
            if operator.value == Operator::Assign {
                lemma_assignment_jumps(expression, span, build);
            } else {
                lemma_operation_jumps(expression, span, build);
            }
        },
        ExpressionView::Index { .. } => lemma_index_jumps(expression, span, build),
        ExpressionView::NewInstance { .. } => lemma_new_jumps(expression, span, build),
    }
}

pub proof fn lemma_call_jumps(expression: ExpressionView, span: Span, build: Build)
    requires
        expression is FunctionCall,
        expression_compiled(expression, span, build) is Ok,
        expression_supported(expression),
    ensures
        extends(build, expression_compiled(expression, span, build)->Ok_0, 0),
        expression_compiled(expression, span, build)->Ok_0.chunk.code.len()
            > build.chunk.code.len(),
    decreases expression, 0nat,
{
    let target = expression->FunctionCall_target;
    let args = expression->FunctionCall_args;
    let parameters = type_of(target.value, target.span, build.compiler)->Ok_0->Function_args;
    let called = expression_compiled(target.value, target.span, build)->Ok_0;
    let passed = arguments_compiled(args.value, parameters, 0, called)->Ok_0;
    let done = passed.emit(span.line, OpCode::Call(args.value.len() as usize));
    assert(expression_compiled(expression, span, build) == Ok::<Build, Failure>(done));
    lemma_expression_jumps(target.value, target.span, build);
    lemma_arguments_jumps(args.value, parameters, 0, called);
    lemma_extends_further(build, called, passed, slack_of(target.value), 1);
    lemma_emit_extends(passed, span.line, OpCode::Call(args.value.len() as usize));
    lemma_extends_further(build, passed, done, 1, 0);
}

pub proof fn lemma_arguments_jumps(
    args: Seq<Positioned<ExpressionView>>,
    parameters: Seq<TypeView>,
    from: int,
    build: Build,
)
    requires
        0 <= from,
        arguments_compiled(args, parameters, from, build) is Ok,
        expressions_supported(args, from),
    ensures
        extends(build, arguments_compiled(args, parameters, from, build)->Ok_0, 1),
    decreases args, args.len() - from,
{
    if from < args.len() {
        let pushed = expression_compiled(args[from].value, args[from].span, build)->Ok_0;
        lemma_expression_jumps(args[from].value, args[from].span, build);
        lemma_arguments_jumps(args, parameters, from + 1, pushed);
        lemma_extends_loosely(build, pushed, slack_of(args[from].value), 1);
        lemma_extends_further(
            build,
            pushed,
            arguments_compiled(args, parameters, from + 1, pushed)->Ok_0,
            1,
            1,
        );
    } else {
        lemma_extends_itself(build, build, 1);
    }
}

pub proof fn lemma_items_jumps(given: Seq<Positioned<ExpressionView>>, from: int, build: Build)
    requires
        0 <= from,
        items_compiled(given, from, build) is Ok,
        expressions_supported(given, from),
    ensures
        extends(build, items_compiled(given, from, build)->Ok_0, 1),
    decreases given, given.len() - from,
{
    if from < given.len() {
        let pushed = expression_compiled(given[from].value, given[from].span, build)->Ok_0;
        lemma_expression_jumps(given[from].value, given[from].span, build);
        lemma_items_jumps(given, from + 1, pushed);
        lemma_extends_loosely(build, pushed, slack_of(given[from].value), 1);
        lemma_extends_further(build, pushed, items_compiled(given, from + 1, pushed)->Ok_0, 1, 1);
    } else {
        lemma_extends_itself(build, build, 1);
    }
}

pub proof fn lemma_fields_jumps(
    given: Seq<Positioned<StructFieldValueView>>,
    order: Seq<int>,
    from: int,
    build: Build,
)
    requires
        0 <= from,
        fields_compiled(given, order, from, build) is Ok,
        fields_supported(given, 0),
    ensures
        extends(build, fields_compiled(given, order, from, build)->Ok_0, 1),
    decreases given, order.len() - from,
{
    if from < order.len() && 0 <= order[from] < given.len() {
        let value = given[order[from]].value.value;
        let pushed = expression_compiled(value.value, value.span, build)->Ok_0;
        crate::compiler::emit::lemma_field_supported(given, 0, order[from]);
        lemma_expression_jumps(value.value, value.span, build);
        lemma_fields_jumps(given, order, from + 1, pushed);
        lemma_extends_loosely(build, pushed, slack_of(value.value), 1);
        lemma_extends_further(
            build,
            pushed,
            fields_compiled(given, order, from + 1, pushed)->Ok_0,
            1,
            1,
        );
    } else {
        lemma_extends_itself(build, build, 1);
    }
}

#[verifier::rlimit(40)]
pub proof fn lemma_new_jumps(expression: ExpressionView, span: Span, build: Build)
    requires
        expression is NewInstance,
        expression_compiled(expression, span, build) is Ok,
        expression_supported(expression),
    ensures
        extends(build, expression_compiled(expression, span, build)->Ok_0, 0),
        expression_compiled(expression, span, build)->Ok_0.chunk.code.len()
            > build.chunk.code.len(),
    decreases expression, 0nat,
{
    let class = expression->NewInstance_class;
    let values = expression->NewInstance_values;
    let found = build.compiler.get_var(class.span, class.value)->Ok_0;
    let variable = found.1;
    let slot = found.0 as usize;
    let pushed = match values.value {
        InstanceArgsView::Record(given) => {
            lemma_items_jumps(given, 0, build);
            items_compiled(given, 0, build)->Ok_0
        },
        InstanceArgsView::Struct(given) => {
            let order = declaration_order(given, variable.ty->Struct_fields);
            lemma_fields_jumps(given, order, 0, build);
            fields_compiled(given, order, 0, build)->Ok_0
        },
    };
    let read = pushed.emit(
        span.line,
        OpCode::GetLocal(
            crate::compiler::state::depth_delta(variable.depth, pushed.compiler.scope_depth),
            slot,
        ),
    );
    let done = read.emit(span.line, OpCode::CreateInstance);
    assert(expression_compiled(expression, span, build) == Ok::<Build, Failure>(done));
    lemma_emit_extends(
        pushed,
        span.line,
        OpCode::GetLocal(
            crate::compiler::state::depth_delta(variable.depth, pushed.compiler.scope_depth),
            slot,
        ),
    );
    lemma_extends_further(build, pushed, read, 1, 0);
    lemma_emit_extends(read, span.line, OpCode::CreateInstance);
    lemma_extends_further(build, read, done, 0, 0);
}

pub proof fn lemma_index_jumps(expression: ExpressionView, span: Span, build: Build)
    requires
        expression is Index,
        expression_compiled(expression, span, build) is Ok,
        expression_supported(expression),
    ensures
        extends(build, expression_compiled(expression, span, build)->Ok_0, 0),
        expression_compiled(expression, span, build)->Ok_0.chunk.code.len()
            > build.chunk.code.len(),
    decreases expression, 0nat,
{
    let object = expression->Index_object;
    let index = expression->Index_index;
    let target = type_of(object.value, object.span, build.compiler)->Ok_0;
    let pushed = expression_compiled(object.value, object.span, build)->Ok_0;
    let place = property_of(target, object.span, index)->Ok_0.0;
    let done = pushed.emit(index.span.line, OpCode::GetProperty(place));
    assert(expression_compiled(expression, span, build) == Ok::<Build, Failure>(done));
    lemma_expression_jumps(object.value, object.span, build);
    lemma_emit_extends(pushed, index.span.line, OpCode::GetProperty(place));
    lemma_extends_further(build, pushed, done, slack_of(object.value), 0);
}

#[verifier::rlimit(40)]
pub proof fn lemma_assignment_jumps(expression: ExpressionView, span: Span, build: Build)
    requires
        expression matches ExpressionView::Binary { operator, .. } && operator.value
            == Operator::Assign,
        expression_compiled(expression, span, build) is Ok,
        expression_supported(expression),
    ensures
        extends(build, expression_compiled(expression, span, build)->Ok_0, slack_of(expression)),
        expression_compiled(expression, span, build)->Ok_0.chunk.code.len()
            > build.chunk.code.len(),
    decreases expression, 0nat,
{
    let lhs = expression->Binary_lhs;
    let rhs = expression->Binary_rhs;
    match lhs.value {
        ExpressionView::Ident(name) => {
            let found = build.compiler.get_var(lhs.span, name)->Ok_0;
            let valued = expression_compiled(rhs.value, rhs.span, build)->Ok_0;
            let op = OpCode::SetLocal(Some(found.1.depth), found.0 as usize);
            let done = valued.emit(lhs.span.line, op);
            assert(expression_compiled(expression, span, build) == Ok::<Build, Failure>(
                done,
            ));
            lemma_expression_jumps(rhs.value, rhs.span, build);
            lemma_emit_extends(valued, lhs.span.line, op);
            lemma_extends_further(build, valued, done, slack_of(rhs.value), 0);
        },
        ExpressionView::Index { object, index } => {
            let target = type_of(object.value, object.span, build.compiler)->Ok_0;
            let pushed = expression_compiled(object.value, object.span, build)->Ok_0;
            let place = property_of(target, object.span, index)->Ok_0.0;
            let valued = expression_compiled(rhs.value, rhs.span, pushed)->Ok_0;
            let done = valued.emit(index.span.line, OpCode::SetProperty(place));
            assert(expression_compiled(expression, span, build) == Ok::<Build, Failure>(
                done,
            ));
            assert(expression_supported(lhs.value));
            lemma_expression_jumps(object.value, object.span, build);
            lemma_expression_jumps(rhs.value, rhs.span, pushed);
            lemma_extends_further(
                build,
                pushed,
                valued,
                slack_of(object.value),
                slack_of(rhs.value),
            );
            lemma_emit_extends(valued, index.span.line, OpCode::SetProperty(place));
            lemma_extends_further(build, valued, done, slack_of(rhs.value), 0);
        },
        other => {
            lemma_expression_jumps(other, lhs.span, build);
        },
    }
}

#[verifier::rlimit(40)]
pub proof fn lemma_operation_jumps(expression: ExpressionView, span: Span, build: Build)
    requires
        expression matches ExpressionView::Binary { operator, .. } && operator.value
            != Operator::Assign,
        expression_compiled(expression, span, build) is Ok,
        expression_supported(expression),
    ensures
        extends(build, expression_compiled(expression, span, build)->Ok_0, slack_of(expression)),
        expression_compiled(expression, span, build)->Ok_0.chunk.code.len()
            > build.chunk.code.len(),
    decreases expression, 0nat,
{
    let lhs = expression->Binary_lhs;
    let rhs = expression->Binary_rhs;
    let operator = expression->Binary_operator;
    let left = expression_compiled(lhs.value, lhs.span, build)->Ok_0;
    lemma_expression_jumps(lhs.value, lhs.span, build);
    if operator.value == Operator::And {
        let jump = left.emit(span.line, OpCode::JumpIfFalse(0));
        let pop = jump.emit(span.line, OpCode::Pop);
        let both = expression_compiled(rhs.value, rhs.span, pop)->Ok_0;
        let done = both.patch(left.len(), both.len());
        assert(expression_compiled(expression, span, build) == Ok::<Build, Failure>(done));
        lemma_emit_extends(left, span.line, OpCode::JumpIfFalse(0));
        lemma_extends_further(build, left, jump, slack_of(lhs.value), 0);
        lemma_emit_extends(jump, span.line, OpCode::Pop);
        lemma_extends_further(build, jump, pop, 0, 0);
        lemma_expression_jumps(rhs.value, rhs.span, pop);
        lemma_extends_loosely(pop, both, slack_of(rhs.value), 1);
        lemma_extends_further(build, pop, both, 0, 1);
        lemma_patch_extends(build, both, left.len(), both.len(), 1);
    } else if operator.value == Operator::Or {
        let jump = left.emit(span.line, OpCode::JumpIfFalse(0));
        let over = jump.emit(span.line, OpCode::Jump(0));
        let pop = over.emit(span.line, OpCode::Pop);
        let both = expression_compiled(rhs.value, rhs.span, pop)->Ok_0;
        let first = both.patch(left.len(), left.len().wrapping_add(1));
        let done = first.patch(left.len().wrapping_add(1), both.len());
        assert(expression_compiled(expression, span, build) == Ok::<Build, Failure>(done));
        lemma_emit_extends(left, span.line, OpCode::JumpIfFalse(0));
        lemma_extends_further(build, left, jump, slack_of(lhs.value), 0);
        lemma_emit_extends(jump, span.line, OpCode::Jump(0));
        lemma_extends_further(build, jump, over, 0, 0);
        lemma_emit_extends(over, span.line, OpCode::Pop);
        lemma_extends_further(build, over, pop, 0, 0);
        lemma_expression_jumps(rhs.value, rhs.span, pop);
        lemma_extends_loosely(pop, both, slack_of(rhs.value), 1);
        lemma_extends_further(build, pop, both, 0, 1);
        lemma_patch_extends(build, both, left.len(), left.len().wrapping_add(1), 1);
        lemma_patch_extends(build, first, left.len().wrapping_add(1), both.len(), 1);
    } else {
        let both = expression_compiled(rhs.value, rhs.span, left)->Ok_0;
        let done = operator_compiled(operator.value, operator.span.line, both);
        assert(expression_compiled(expression, span, build) == Ok::<Build, Failure>(done));
        lemma_expression_jumps(rhs.value, rhs.span, left);
        lemma_extends_further(build, left, both, slack_of(lhs.value), slack_of(rhs.value));
        lemma_operator_jumps(operator.value, operator.span.line, both);
        lemma_extends_further(build, both, done, slack_of(rhs.value), 0);
    }
}

/// The instruction of an operator of arithmetic or of comparison is no jump.
pub proof fn lemma_operator_jumps(operator: Operator, line: usize, build: Build)
    requires
        operator != Operator::Assign,
        operator != Operator::And,
        operator != Operator::Or,
    ensures
        extends(build, operator_compiled(operator, line, build), 0),
        operator_compiled(operator, line, build).chunk.code.len() > build.chunk.code.len(),
{
    if operator == Operator::NotEqual {
        let first = build.emit(line, OpCode::Equal);
        lemma_emit_extends(build, line, OpCode::Equal);
        lemma_emit_extends(first, line, OpCode::Negate);
        lemma_extends_further(build, first, first.emit(line, OpCode::Negate), 0, 0);
    }
}

#[verifier::rlimit(40)]
pub proof fn lemma_conditional_jumps(expression: ExpressionView, span: Span, build: Build)
    requires
        expression is IfElse,
        expression_compiled(expression, span, build) is Ok,
        expression_supported(expression),
    ensures
        extends(build, expression_compiled(expression, span, build)->Ok_0, slack_of(expression)),
        expression_compiled(expression, span, build)->Ok_0.chunk.code.len()
            > build.chunk.code.len(),
    decreases expression, 0nat,
{
    let condition = expression->IfElse_condition;
    let block = expression->IfElse_block;
    let else_block = expression->IfElse_else_block;
    let tested = expression_compiled(condition.value, condition.span, build)->Ok_0;
    let jump = tested.emit(span.line, OpCode::JumpIfFalse(0));
    let taken = block_compiled(block.value, block.span, jump)->Ok_0;
    let skipping = taken.patch(tested.len(), taken.len().wrapping_sub(1));
    lemma_expression_jumps(condition.value, condition.span, build);
    lemma_emit_extends(tested, span.line, OpCode::JumpIfFalse(0));
    lemma_extends_further(build, tested, jump, slack_of(condition.value), 0);
    lemma_block_jumps(block.value, block.span, jump);
    lemma_extends_further(build, jump, taken, 0, 0);
    lemma_patch_extends(build, taken, tested.len(), taken.len().wrapping_sub(1), 0);
    match else_block {
        None => {
            assert(expression_compiled(expression, span, build) == Ok::<Build, Failure>(
                skipping,
            ));
        },
        Some(other) => {
            let entered = skipping.patch(tested.len(), taken.len());
            let over = entered.emit(span.line, OpCode::Jump(0));
            let both = expression_compiled(other.value, other.span, over)->Ok_0;
            let done = both.patch(taken.len(), both.len().wrapping_sub(1));
            assert(expression_compiled(expression, span, build) == Ok::<Build, Failure>(
                done,
            ));
            lemma_extends_loosely(build, skipping, 0, 1);
            lemma_patch_extends(build, skipping, tested.len(), taken.len(), 1);
            lemma_emit_extends(entered, span.line, OpCode::Jump(0));
            lemma_extends_further(build, entered, over, 1, 0);
            lemma_expression_jumps(other.value, other.span, over);
            lemma_extends_further(build, over, both, 0, slack_of(other.value));
            lemma_patch_extends(
                build,
                both,
                taken.len(),
                both.len().wrapping_sub(1),
                slack_of(other.value),
            );
        },
    }
}

#[verifier::rlimit(40)]
pub proof fn lemma_match_jumps(expression: ExpressionView, span: Span, build: Build)
    requires
        expression is Match,
        expression_compiled(expression, span, build) is Ok,
        expression_supported(expression),
    ensures
        extends(build, expression_compiled(expression, span, build)->Ok_0, slack_of(expression)),
        expression_compiled(expression, span, build)->Ok_0.chunk.code.len()
            > build.chunk.code.len(),
    decreases expression, 0nat,
{
    let scrutinee = expression->Match_scrutinee;
    let variants = expression->Match_variants;
    let target = type_of(scrutinee.value, scrutinee.span, build.compiler)->Ok_0;
    let pushed = expression_compiled(scrutinee.value, scrutinee.span, build)->Ok_0;
    let read = arms_compiled(variants, 0, target, span, pushed, Seq::empty())->Ok_0;
    let arms = read.0;
    let jumps = read.1;
    let end = arms.len().wrapping_sub(1);
    let done = arms.patch_all(jumps, end);
    assert(expression_compiled(expression, span, build) == Ok::<Build, Failure>(done));
    lemma_expression_jumps(scrutinee.value, scrutinee.span, build);
    lemma_arms_jumps(variants, 0, target, span, pushed, Seq::empty());
    if variants.len() == 0 {
        lemma_extends_loosely(pushed, arms, 0, slack_of(scrutinee.value));
        lemma_extends_further(
            build,
            pushed,
            arms,
            slack_of(scrutinee.value),
            slack_of(scrutinee.value),
        );
        lemma_patch_all_extends(build, arms, jumps, 0, end, slack_of(scrutinee.value));
    } else {
        lemma_extends_further(build, pushed, arms, slack_of(scrutinee.value), 0);
        lemma_patch_all_extends(build, arms, jumps, 0, end, 0);
    }
}

/// The arms of a `match` extend the code with jumps that lead into it, and
/// the jumps out of the arms, which are still to be set, lie in what was added.
#[verifier::rlimit(40)]
pub proof fn lemma_arms_jumps(
    variants: Seq<Positioned<MatchVariantView>>,
    from: int,
    target: TypeView,
    span: Span,
    build: Build,
    jumps: Seq<usize>,
)
    requires
        0 <= from,
        arms_compiled(variants, from, target, span, build, jumps) is Ok,
        arms_supported(variants, from),
    ensures
        ({
            let read = arms_compiled(variants, from, target, span, build, jumps)->Ok_0;
            &&& extends(build, read.0, 0)
            &&& from < variants.len() ==> read.0.chunk.code.len() > build.chunk.code.len()
            &&& from >= variants.len() ==> read == (build, jumps)
            &&& read.1.len() >= jumps.len()
            &&& forall|k: int| 0 <= k < jumps.len() ==> read.1[k] == jumps[k]
            &&& read.0.chunk.code.len() <= isize::MAX ==> forall|k: int|
                jumps.len() <= k < read.1.len() ==> build.chunk.code.len() <= #[trigger] read.1[k]
                    < read.0.chunk.code.len() && read.0.chunk.code[read.1[k] as int].1
                    == OpCode::Jump(0)
        }),
    decreases variants, variants.len() - from,
{
    if from >= variants.len() {
        lemma_extends_itself(build, build, 0);
    } else {
        let variant = variants[from];
        let case = variant.value.case;
        let body = variant.value.body;
        match case.value {
            MatchCaseView::Ident(name) => {
                let framed = build.emit(variant.span.line, OpCode::PushFrame);
                let declared = framed.push_scope().declare(name, false, target, Some(case.span));
                let bound = declared.0;
                let stored = bound.emit(case.span.line, OpCode::SetLocal(None, declared.1));
                let valued = expression_compiled(body.value, body.span, stored)->Ok_0;
                let returned = valued.emit(variant.span.line, OpCode::Return);
                let done = returned.pop_scope().emit(variant.span.line, OpCode::PopFrame);
                assert(arms_compiled(variants, from, target, span, build, jumps) == Ok::<(Build, Seq<usize>), Failure>((done, jumps)));
                lemma_emit_extends(build, variant.span.line, OpCode::PushFrame);
                lemma_extends_itself(framed, bound, 0);
                lemma_extends_further(build, framed, bound, 0, 0);
                lemma_emit_extends(bound, case.span.line, OpCode::SetLocal(None, declared.1));
                lemma_extends_further(build, bound, stored, 0, 0);
                lemma_expression_jumps(body.value, body.span, stored);
                lemma_extends_further(build, stored, valued, 0, slack_of(body.value));
                lemma_emit_extends(valued, variant.span.line, OpCode::Return);
                lemma_extends_further(build, valued, returned, slack_of(body.value), 0);
                lemma_extends_itself(returned, returned.pop_scope(), 0);
                lemma_extends_further(build, returned, returned.pop_scope(), 0, 0);
                lemma_emit_extends(returned.pop_scope(), variant.span.line, OpCode::PopFrame);
                lemma_extends_further(build, returned.pop_scope(), done, 0, 0);
            },
            MatchCaseView::Value(value) => {
                let copied = build.emit(variant.span.line, OpCode::Copy);
                let compared = expression_compiled(value, case.span, copied)->Ok_0;
                let equal = compared.emit(case.span.line, OpCode::Equal);
                let jump = equal.emit(case.span.line, OpCode::JumpIfFalse(0));
                let pop = jump.emit(case.span.line, OpCode::Pop);
                let valued = expression_compiled(body.value, body.span, pop)->Ok_0;
                let start = compared.len().wrapping_add(1);
                let left = valued.emit(case.span.line, OpCode::Jump(0));
                let exit = left.len().wrapping_sub(1);
                let patched = left.patch(start, exit);
                let more = jumps.push(exit);
                assert(arms_compiled(variants, from, target, span, build, jumps) == arms_compiled(
                    variants,
                    from + 1,
                    target,
                    span,
                    patched,
                    more,
                ));
                lemma_emit_extends(build, variant.span.line, OpCode::Copy);
                lemma_expression_jumps(value, case.span, copied);
                lemma_extends_further(build, copied, compared, 0, slack_of(value));
                lemma_emit_extends(compared, case.span.line, OpCode::Equal);
                lemma_extends_further(build, compared, equal, slack_of(value), 0);
                lemma_emit_extends(equal, case.span.line, OpCode::JumpIfFalse(0));
                lemma_extends_further(build, equal, jump, 0, 0);
                lemma_emit_extends(jump, case.span.line, OpCode::Pop);
                lemma_extends_further(build, jump, pop, 0, 0);
                lemma_expression_jumps(body.value, body.span, pop);
                lemma_extends_further(build, pop, valued, 0, slack_of(body.value));
                lemma_emit_extends(valued, case.span.line, OpCode::Jump(0));
                lemma_extends_further(build, valued, left, slack_of(body.value), 0);
                lemma_patch_extends(build, left, start, exit, 0);
                lemma_arms_jumps(variants, from + 1, target, span, patched, more);
                let read = arms_compiled(variants, from + 1, target, span, patched, more)->Ok_0;
                lemma_extends_further(build, patched, read.0, 0, 0);
                assert(read.1[jumps.len() as int] == more[jumps.len() as int]);
                assert forall|k: int| 0 <= k < jumps.len() implies read.1[k] == jumps[k] by {
                    assert(read.1[k] == more[k]);
                }
                if read.0.chunk.code.len() <= isize::MAX {
                    assert(read.0.chunk.code[valued.chunk.code.len() as int]
                        == patched.chunk.code[valued.chunk.code.len() as int]);
                    assert forall|k: int| jumps.len() <= k < read.1.len() implies build.chunk.code.len()
                        <= #[trigger] read.1[k] < read.0.chunk.code.len()
                        && read.0.chunk.code[read.1[k] as int].1 == OpCode::Jump(0) by {
                        if k > jumps.len() {
                            assert(more.len() <= k < read.1.len());
                        }
                    }
                }
            },
        }
    }
}

/// A block has a frame around its statements, so its jumps lead into it.
#[verifier::rlimit(40)]
pub proof fn lemma_block_jumps(block: BlockView, span: Span, build: Build)
    requires
        block_compiled(block, span, build) is Ok,
        block_supported(block),
    ensures
        extends(build, block_compiled(block, span, build)->Ok_0, 0),
        block_compiled(block, span, build)->Ok_0.chunk.code.len() > build.chunk.code.len(),
    decreases block, 1nat,
{
    let framed = build.emit(span.line, OpCode::PushFrame);
    let inside = statements_compiled(block.statements, 0, framed.push_scope())->Ok_0;
    lemma_emit_extends(build, span.line, OpCode::PushFrame);
    lemma_extends_itself(framed, framed.push_scope(), 0);
    lemma_extends_further(build, framed, framed.push_scope(), 0, 0);
    lemma_statements_jumps(block.statements, 0, framed.push_scope());
    lemma_extends_further(
        build,
        framed.push_scope(),
        inside,
        0,
        statements_slack(block.statements, 0),
    );
    lemma_extends_loosely(build, inside, statements_slack(block.statements, 0), 1);
    match block.return_statement {
        None => {
            let done = inside.pop_scope().emit(span.line, OpCode::PopFrame);
            lemma_extends_itself(inside, inside.pop_scope(), 1);
            lemma_extends_further(build, inside, inside.pop_scope(), 1, 1);
            lemma_emit_extends(inside.pop_scope(), span.line, OpCode::PopFrame);
            lemma_extends_further(build, inside.pop_scope(), done, 1, 0);
        },
        Some(statement) => {
            let valued = statement_compiled(statement.value, statement.span, inside)->Ok_0;
            let returned = valued.emit(span.line, OpCode::Return);
            let done = returned.pop_scope().emit(span.line, OpCode::PopFrame);
            lemma_statement_jumps(statement.value, statement.span, inside);
            lemma_extends_loosely(inside, valued, statement_slack(statement.value), 1);
            lemma_extends_further(build, inside, valued, 1, 1);
            lemma_emit_extends(valued, span.line, OpCode::Return);
            lemma_extends_further(build, valued, returned, 1, 0);
            lemma_extends_itself(returned, returned.pop_scope(), 0);
            lemma_extends_further(build, returned, returned.pop_scope(), 0, 0);
            lemma_emit_extends(returned.pop_scope(), span.line, OpCode::PopFrame);
            lemma_extends_further(build, returned.pop_scope(), done, 0, 0);
        },
    }
}

pub proof fn lemma_statements_jumps(
    statements: Seq<Positioned<StatementView>>,
    from: int,
    build: Build,
)
    requires
        0 <= from,
        statements_compiled(statements, from, build) is Ok,
        statements_supported(statements, from),
    ensures
        extends(
            build,
            statements_compiled(statements, from, build)->Ok_0,
            statements_slack(statements, from),
        ),
        from < statements.len() ==> statements_compiled(statements, from, build)->Ok_0.chunk.code.len()
            > build.chunk.code.len(),
        from >= statements.len() ==> statements_compiled(statements, from, build)->Ok_0 == build,
    decreases statements, statements.len() - from,
{
    if from < statements.len() {
        let done = statement_compiled(statements[from].value, statements[from].span, build)->Ok_0;
        lemma_statement_jumps(statements[from].value, statements[from].span, build);
        lemma_statements_jumps(statements, from + 1, done);
        lemma_extends_further(
            build,
            done,
            statements_compiled(statements, from + 1, done)->Ok_0,
            statement_slack(statements[from].value),
            statements_slack(statements, from),
        );
    } else {
        lemma_extends_itself(build, build, 0);
    }
}

/// A statement extends the code by at least one instruction; its jumps lead
/// into it or as far behind it as the statement is loose.
pub proof fn lemma_statement_jumps(statement: StatementView, span: Span, build: Build)
    requires
        statement_compiled(statement, span, build) is Ok,
        statement_supported(statement),
    ensures
        extends(build, statement_compiled(statement, span, build)->Ok_0, statement_slack(statement)),
        statement_compiled(statement, span, build)->Ok_0.chunk.code.len()
            > build.chunk.code.len(),
    decreases statement, 0nat,
{
    match statement {
        StatementView::Expression(expression) => lemma_expression_jumps(expression, span, build),
        StatementView::Variable(variable) => {
            let ty = type_of(variable.value.value, variable.value.span, build.compiler)->Ok_0;
            let declared = build.compiler.get_or_create_var(
                variable.name.value,
                ty,
                variable.mutable.value,
                Some(span),
            );
            let start = Build { compiler: declared.0, ..build };
            let valued = expression_compiled(variable.value.value, variable.value.span, start)->Ok_0;
            let done = valued.emit(variable.value.span.line, OpCode::SetLocal(None, declared.1));
            lemma_extends_itself(build, start, 0);
            lemma_expression_jumps(variable.value.value, variable.value.span, start);
            lemma_extends_further(build, start, valued, 0, slack_of(variable.value.value));
            lemma_emit_extends(
                valued,
                variable.value.span.line,
                OpCode::SetLocal(None, declared.1),
            );
            lemma_extends_further(build, valued, done, slack_of(variable.value.value), 0);
        },
        StatementView::Record(_) => {},
        StatementView::Struct(_) => {},
        StatementView::Func(_) => {},
        StatementView::ForIn(_) => {},
        StatementView::WhileLoop(_) => {},
    }
}

/// Whether every jump of the code leads to an instruction of the code.
pub open spec fn jumps_in_range(code: Seq<(usize, OpCode)>) -> bool {
    forall|place: int|
        0 <= place < code.len() ==> match (#[trigger] code[place]).1 {
            OpCode::Jump(offset) => 0 <= place + offset + 1 < code.len(),
            OpCode::JumpIfFalse(offset) => place + offset + 1 < code.len(),
            _ => true,
        }
}

/// Every jump of a compiled program leads to an instruction of the program.
/// This is said of programs whose code is no longer than the largest offset,
/// and that do not end in a statement that is loose, an `&&` or an `||` on
/// its own: the jump over the right side of such a one leads over one more
/// instruction, and there is only `Halt` behind it.
#[verifier::rlimit(40)]
pub proof fn lemma_program_jumps_in_range(
    statements: Seq<Positioned<StatementView>>,
    return_statement: Option<Positioned<StatementView>>,
    compiler: CompilerView,
    heap: Seq<ObjectView>,
)
    requires
        program_compiled(statements, return_statement, compiler, heap) is Ok,
        program_supported(statements, return_statement),
        program_compiled(statements, return_statement, compiler, heap)->Ok_0.chunk.code.len()
            <= isize::MAX,
        return_statement is Some || statements_slack(statements, 0) == 0,
    ensures
        jumps_in_range(
            program_compiled(statements, return_statement, compiler, heap)->Ok_0.chunk.code,
        ),
{
    let tight: int = -1;
    let start = Build { compiler, chunk: ChunkView::empty(), heap };
    let done = statements_compiled(statements, 0, start)->Ok_0;
    let result = program_compiled(statements, return_statement, compiler, heap)->Ok_0;
    lemma_statements_jumps(statements, 0, start);
    match return_statement {
        None => {
            lemma_emit_extends(done, 0, OpCode::Halt);
            lemma_extends_further(start, done, result, 0, tight);
        },
        Some(statement) => {
            let valued = statement_compiled(statement.value, statement.span, done)->Ok_0;
            let returned = valued.emit(statement.span.line, OpCode::Return);
            lemma_statement_jumps(statement.value, statement.span, done);
            lemma_extends_loosely(start, done, statements_slack(statements, 0), 1);
            lemma_extends_loosely(done, valued, statement_slack(statement.value), 1);
            lemma_extends_further(start, done, valued, 1, 1);
            lemma_emit_extends(valued, statement.span.line, OpCode::Return);
            lemma_extends_further(start, valued, returned, 1, 0);
            lemma_emit_extends(returned, 0, OpCode::Halt);
            lemma_extends_further(start, returned, result, 0, tight);
        },
    }
    let code = result.chunk.code;
    assert forall|place: int| 0 <= place < code.len() implies match (#[trigger] code[place]).1 {
        OpCode::Jump(offset) => 0 <= place + offset + 1 < code.len(),
        OpCode::JumpIfFalse(offset) => place + offset + 1 < code.len(),
        _ => true,
    } by {
        assert(jump_within(code, place, code.len() + tight));
    }
}

/// Whatever a program ends in, none of its jumps leads further than to the
/// end of its code.
#[verifier::rlimit(40)]
pub proof fn lemma_program_jumps_never_far(
    statements: Seq<Positioned<StatementView>>,
    return_statement: Option<Positioned<StatementView>>,
    compiler: CompilerView,
    heap: Seq<ObjectView>,
)
    requires
        program_compiled(statements, return_statement, compiler, heap) is Ok,
        program_supported(statements, return_statement),
        program_compiled(statements, return_statement, compiler, heap)->Ok_0.chunk.code.len()
            <= isize::MAX,
    ensures
        ({
            let code = program_compiled(statements, return_statement, compiler, heap)->Ok_0.chunk.code;
            forall|place: int|
                0 <= place < code.len() ==> #[trigger] jump_within(code, place, code.len() as int)
        }),
{
    let none: int = 0;
    let start = Build { compiler, chunk: ChunkView::empty(), heap };
    let done = statements_compiled(statements, 0, start)->Ok_0;
    let result = program_compiled(statements, return_statement, compiler, heap)->Ok_0;
    lemma_statements_jumps(statements, 0, start);
    lemma_extends_loosely(start, done, statements_slack(statements, 0), 1);
    match return_statement {
        None => {
            lemma_emit_extends(done, 0, OpCode::Halt);
            lemma_extends_further(start, done, result, 1, none);
        },
        Some(statement) => {
            let valued = statement_compiled(statement.value, statement.span, done)->Ok_0;
            let returned = valued.emit(statement.span.line, OpCode::Return);
            lemma_statement_jumps(statement.value, statement.span, done);
            lemma_extends_loosely(done, valued, statement_slack(statement.value), 1);
            lemma_extends_further(start, done, valued, 1, 1);
            lemma_emit_extends(valued, statement.span.line, OpCode::Return);
            lemma_extends_further(start, valued, returned, 1, 0);
            lemma_emit_extends(returned, 0, OpCode::Halt);
            lemma_extends_further(start, returned, result, 0, none);
        },
    }
    let code = result.chunk.code;
    assert forall|place: int| 0 <= place < code.len() implies #[trigger] jump_within(
        code,
        place,
        code.len() as int,
    ) by {
        assert(jump_within(code, place, code.len() + none));
    }
}

/// The same of the body of a function, which is compiled to code of its own.
#[verifier::rlimit(40)]
pub proof fn lemma_function_jumps_in_range(body: BlockView, body_at: Span, build: Build)
    requires
        function_body_compiled(body, body_at, build) is Ok,
        block_supported(body),
        build.chunk.code.len() == 0,
        function_body_compiled(body, body_at, build)->Ok_0.0.chunk.code.len() <= isize::MAX,
        body.return_statement is Some || statements_slack(body.statements, 0) == 0,
    ensures
        jumps_in_range(function_body_compiled(body, body_at, build)->Ok_0.0.chunk.code),
{
    let tight: int = -1;
    let done = statements_compiled(body.statements, 0, build)->Ok_0;
    let result = function_body_compiled(body, body_at, build)->Ok_0.0;
    lemma_statements_jumps(body.statements, 0, build);
    match body.return_statement {
        None => {
            lemma_extends_itself(done, done.pop_scope(), 0);
            lemma_extends_further(build, done, done.pop_scope(), 0, 0);
            lemma_emit_extends(done.pop_scope(), 0, OpCode::Halt);
            lemma_extends_further(build, done.pop_scope(), result, 0, tight);
        },
        Some(statement) => {
            let valued = statement_compiled(statement.value, statement.span, done)->Ok_0;
            let returned = valued.emit(body_at.line, OpCode::Return);
            lemma_statement_jumps(statement.value, statement.span, done);
            lemma_extends_loosely(build, done, statements_slack(body.statements, 0), 1);
            lemma_extends_loosely(done, valued, statement_slack(statement.value), 1);
            lemma_extends_further(build, done, valued, 1, 1);
            lemma_emit_extends(valued, body_at.line, OpCode::Return);
            lemma_extends_further(build, valued, returned, 1, 0);
            lemma_extends_itself(returned, returned.pop_scope(), 0);
            lemma_extends_further(build, returned, returned.pop_scope(), 0, 0);
            lemma_emit_extends(returned.pop_scope(), 0, OpCode::Halt);
            lemma_extends_further(build, returned.pop_scope(), result, 0, tight);
        },
    }
    let code = result.chunk.code;
    assert forall|place: int| 0 <= place < code.len() implies match (#[trigger] code[place]).1 {
        OpCode::Jump(offset) => 0 <= place + offset + 1 < code.len(),
        OpCode::JumpIfFalse(offset) => place + offset + 1 < code.len(),
        _ => true,
    } by {
        assert(jump_within(code, place, code.len() + tight));
    }
}

/// The jumps of a conditional. Where there is no `else`, the jump that is
/// taken where the condition is false has the length of the block as its
/// offset, and so leads behind the block. Where there is an `else`, its offset
/// is one more, which leads behind the jump that ends the block; and that jump
/// has the length of the code of the `else` as its offset, and leads behind it.
#[verifier::rlimit(40)]
pub proof fn lemma_conditional_offsets(expression: ExpressionView, span: Span, build: Build)
    requires
        expression is IfElse,
        expression_compiled(expression, span, build) is Ok,
        expression_supported(expression),
        expression_compiled(expression, span, build)->Ok_0.chunk.code.len() <= isize::MAX,
    ensures
        ({
            let condition = expression->IfElse_condition;
            let block = expression->IfElse_block;
            let tested = expression_compiled(condition.value, condition.span, build)->Ok_0;
            let taken = block_compiled(
                block.value,
                block.span,
                tested.emit(span.line, OpCode::JumpIfFalse(0)),
            )->Ok_0;
            let code = expression_compiled(expression, span, build)->Ok_0.chunk.code;
            let jump = tested.chunk.code.len() as int;
            let over = taken.chunk.code.len() as int;
            match expression->IfElse_else_block {
                None => code.len() == over && code[jump] == (
                    span.line,
                    OpCode::JumpIfFalse((over - 1 - jump) as usize),
                ),
                Some(other) => over < code.len() && code[jump] == (
                    span.line,
                    OpCode::JumpIfFalse((over - jump) as usize),
                ) && code[over] == (span.line, OpCode::Jump((code.len() - 1 - over) as isize)),
            }
        }),
{
    let condition = expression->IfElse_condition;
    let block = expression->IfElse_block;
    let tested = expression_compiled(condition.value, condition.span, build)->Ok_0;
    let jump = tested.emit(span.line, OpCode::JumpIfFalse(0));
    let taken = block_compiled(block.value, block.span, jump)->Ok_0;
    let skipping = taken.patch(tested.len(), taken.len().wrapping_sub(1));
    lemma_expression_jumps(condition.value, condition.span, build);
    lemma_block_jumps(block.value, block.span, jump);
    match expression->IfElse_else_block {
        None => {
            assert(taken.chunk.code[tested.chunk.code.len() as int] == jump.chunk.code[tested.chunk.code.len() as int]);
        },
        Some(other) => {
            let entered = skipping.patch(tested.len(), taken.len());
            let over = entered.emit(span.line, OpCode::Jump(0));
            let both = expression_compiled(other.value, other.span, over)->Ok_0;
            lemma_expression_jumps(other.value, other.span, over);
            assert(taken.chunk.code[tested.chunk.code.len() as int] == jump.chunk.code[tested.chunk.code.len() as int]);
            assert(both.chunk.code[tested.chunk.code.len() as int] == over.chunk.code[tested.chunk.code.len() as int]);
            assert(both.chunk.code[taken.chunk.code.len() as int] == over.chunk.code[taken.chunk.code.len() as int]);
        },
    }
}

/// The jumps of `&&` and `||`. The jump of `&&` that is taken where the left
/// side is false has the length of all that follows the left side as its
/// offset: itself, the `Pop` and the right side. The two jumps of `||` stand
/// side by side behind the left side: the first has the offset 1, the second
/// the length of what follows it, up to the end of the right side, and one
/// more.
#[verifier::rlimit(40)]
pub proof fn lemma_short_circuit_offsets(expression: ExpressionView, span: Span, build: Build)
    requires
        expression matches ExpressionView::Binary { operator, .. } && (operator.value
            == Operator::And || operator.value == Operator::Or),
        expression_compiled(expression, span, build) is Ok,
        expression_supported(expression),
        expression_compiled(expression, span, build)->Ok_0.chunk.code.len() <= isize::MAX,
    ensures
        ({
            let lhs = expression->Binary_lhs;
            let left = expression_compiled(lhs.value, lhs.span, build)->Ok_0;
            let code = expression_compiled(expression, span, build)->Ok_0.chunk.code;
            let jump = left.chunk.code.len() as int;
            if expression->Binary_operator.value == Operator::And {
                jump + 2 < code.len() && code[jump] == (
                    span.line,
                    OpCode::JumpIfFalse((code.len() - jump) as usize),
                ) && code[jump + 1] == (span.line, OpCode::Pop)
            } else {
                jump + 3 < code.len() && code[jump] == (span.line, OpCode::JumpIfFalse(1))
                    && code[jump + 1] == (
                    span.line,
                    OpCode::Jump((code.len() - jump - 1) as isize),
                ) && code[jump + 2] == (span.line, OpCode::Pop)
            }
        }),
{
    let lhs = expression->Binary_lhs;
    let rhs = expression->Binary_rhs;
    let left = expression_compiled(lhs.value, lhs.span, build)->Ok_0;
    let at = left.chunk.code.len() as int;
    lemma_expression_jumps(lhs.value, lhs.span, build);
    if expression->Binary_operator.value == Operator::And {
        let pop = left.emit(span.line, OpCode::JumpIfFalse(0)).emit(span.line, OpCode::Pop);
        let both = expression_compiled(rhs.value, rhs.span, pop)->Ok_0;
        lemma_expression_jumps(rhs.value, rhs.span, pop);
        assert(both.chunk.code[at] == pop.chunk.code[at]);
        assert(both.chunk.code[at + 1] == pop.chunk.code[at + 1]);
    } else {
        let pop = left.emit(span.line, OpCode::JumpIfFalse(0)).emit(span.line, OpCode::Jump(0)).emit(
            span.line,
            OpCode::Pop,
        );
        let both = expression_compiled(rhs.value, rhs.span, pop)->Ok_0;
        lemma_expression_jumps(rhs.value, rhs.span, pop);
        assert(both.chunk.code[at] == pop.chunk.code[at]);
        assert(both.chunk.code[at + 1] == pop.chunk.code[at + 1]);
        assert(both.chunk.code[at + 2] == pop.chunk.code[at + 2]);
    }
}

/// Jumps that are set to lead to one place: an instruction at one of `jumps`
/// is the jump it was with a new offset, and every other instruction is what it
/// was.
pub proof fn lemma_patched_all(
    code: Seq<(usize, OpCode)>,
    jumps: Seq<usize>,
    from: int,
    end: usize,
)
    requires
        0 <= from,
    ensures
        patched_all(code, jumps, from, end).len() == code.len(),
        forall|place: int|
            0 <= place < code.len() ==> #[trigger] patched_all(code, jumps, from, end)[place] == (
            if exists|k: int| from <= k < jumps.len() && jumps[k] == place {
                patched(code, place as usize, end)[place]
            } else {
                code[place]
            }),
    decreases jumps.len() - from,
{
    if from < jumps.len() {
        let first = patched(code, jumps[from], end);
        lemma_patched_all(first, jumps, from + 1, end);
        assert forall|place: int| 0 <= place < code.len() implies #[trigger] patched_all(
            code,
            jumps,
            from,
            end,
        )[place] == (if exists|k: int| from <= k < jumps.len() && jumps[k] == place {
            patched(code, place as usize, end)[place]
        } else {
            code[place]
        }) by {
            if exists|k: int| from + 1 <= k < jumps.len() && jumps[k] == place {
                let k = choose|k: int| from + 1 <= k < jumps.len() && jumps[k] == place;
                assert(from <= k < jumps.len() && jumps[k] == place);
                assert(patched(first, place as usize, end)[place] == patched(
                    code,
                    place as usize,
                    end,
                )[place]);
            } else if jumps[from] == place {
                assert(from <= from < jumps.len() && jumps[from] == place);
            } else {
                assert forall|k: int| from <= k < jumps.len() implies jumps[k] != place by {
                    if k > from {
                        assert(!(from + 1 <= k < jumps.len() && jumps[k] == place));
                    }
                }
            }
        }
    }
}

/// The jumps of an arm of a `match` that compares. The jump that is taken
/// where the values differ has the length of what follows it in the arm as its
/// offset, and so leads to the last instruction of the arm, behind which the
/// machine goes on: to the next arm. That last instruction is the jump out of
/// the arm, which is among those still to be set.
pub proof fn lemma_arm_offsets(
    variants: Seq<Positioned<MatchVariantView>>,
    from: int,
    target: TypeView,
    span: Span,
    build: Build,
    jumps: Seq<usize>,
)
    requires
        0 <= from < variants.len(),
        variants[from].value.case.value is Value,
        arms_compiled(variants, from, target, span, build, jumps) is Ok,
        arms_supported(variants, from),
        arms_compiled(variants, from, target, span, build, jumps)->Ok_0.0.chunk.code.len()
            <= isize::MAX,
    ensures
        ({
            let case = variants[from].value.case;
            let body = variants[from].value.body;
            let compared = expression_compiled(
                case.value->Value_0,
                case.span,
                build.emit(variants[from].span.line, OpCode::Copy),
            )->Ok_0;
            let valued = expression_compiled(
                body.value,
                body.span,
                compared.emit(case.span.line, OpCode::Equal).emit(
                    case.span.line,
                    OpCode::JumpIfFalse(0),
                ).emit(case.span.line, OpCode::Pop),
            )->Ok_0;
            let read = arms_compiled(variants, from, target, span, build, jumps)->Ok_0;
            let jump = compared.chunk.code.len() as int + 1;
            let exit = valued.chunk.code.len() as int;
            &&& jump < exit < read.0.chunk.code.len()
            &&& read.0.chunk.code[jump] == (
                case.span.line,
                OpCode::JumpIfFalse((exit - jump) as usize),
            )
            &&& read.0.chunk.code[exit] == (case.span.line, OpCode::Jump(0))
            &&& read.1.len() > jumps.len()
            &&& read.1[jumps.len() as int] == exit
        }),
{
    let variant = variants[from];
    let case = variant.value.case;
    let body = variant.value.body;
    let value = case.value->Value_0;
    let copied = build.emit(variant.span.line, OpCode::Copy);
    let compared = expression_compiled(value, case.span, copied)->Ok_0;
    let pop = compared.emit(case.span.line, OpCode::Equal).emit(
        case.span.line,
        OpCode::JumpIfFalse(0),
    ).emit(case.span.line, OpCode::Pop);
    let valued = expression_compiled(body.value, body.span, pop)->Ok_0;
    let start = compared.len().wrapping_add(1);
    let left = valued.emit(case.span.line, OpCode::Jump(0));
    let exit = left.len().wrapping_sub(1);
    let patched = left.patch(start, exit);
    let more = jumps.push(exit);
    assert(arms_compiled(variants, from, target, span, build, jumps) == arms_compiled(
        variants,
        from + 1,
        target,
        span,
        patched,
        more,
    ));
    lemma_expression_jumps(value, case.span, copied);
    lemma_expression_jumps(body.value, body.span, pop);
    lemma_arms_jumps(variants, from + 1, target, span, patched, more);
    let read = arms_compiled(variants, from + 1, target, span, patched, more)->Ok_0;
    let at = compared.chunk.code.len() as int + 1;
    assert(valued.chunk.code[at] == pop.chunk.code[at]);
    assert(read.0.chunk.code[at] == patched.chunk.code[at]);
    assert(read.0.chunk.code[valued.chunk.code.len() as int] == patched.chunk.code[valued.chunk.code.len() as int]);
    assert(read.1[jumps.len() as int] == more[jumps.len() as int]);
}

/// The jumps out of the arms of a `match` all lead behind the `match`: each
/// has as its offset what lies between it and the last instruction of the
/// `match`, behind which the machine goes on.
pub proof fn lemma_match_exits(expression: ExpressionView, span: Span, build: Build)
    requires
        expression is Match,
        expression_compiled(expression, span, build) is Ok,
        expression_supported(expression),
        expression_compiled(expression, span, build)->Ok_0.chunk.code.len() <= isize::MAX,
    ensures
        ({
            let scrutinee = expression->Match_scrutinee;
            let pushed = expression_compiled(scrutinee.value, scrutinee.span, build)->Ok_0;
            let exits = arms_compiled(
                expression->Match_variants,
                0,
                type_of(scrutinee.value, scrutinee.span, build.compiler)->Ok_0,
                span,
                pushed,
                Seq::empty(),
            )->Ok_0.1;
            let code = expression_compiled(expression, span, build)->Ok_0.chunk.code;
            forall|k: int|
                0 <= k < exits.len() ==> pushed.chunk.code.len() <= #[trigger] exits[k] < code.len()
                    && code[exits[k] as int].1 == OpCode::Jump(
                    (code.len() - 1 - exits[k]) as isize,
                )
        }),
{
    let scrutinee = expression->Match_scrutinee;
    let variants = expression->Match_variants;
    let target = type_of(scrutinee.value, scrutinee.span, build.compiler)->Ok_0;
    let pushed = expression_compiled(scrutinee.value, scrutinee.span, build)->Ok_0;
    let read = arms_compiled(variants, 0, target, span, pushed, Seq::empty())->Ok_0;
    let end = read.0.len().wrapping_sub(1);
    lemma_expression_jumps(scrutinee.value, scrutinee.span, build);
    lemma_arms_jumps(variants, 0, target, span, pushed, Seq::empty());
    lemma_patched_all(read.0.chunk.code, read.1, 0, end);
    let code = expression_compiled(expression, span, build)->Ok_0.chunk.code;
    assert(code == patched_all(read.0.chunk.code, read.1, 0, end));
    assert forall|k: int| 0 <= k < read.1.len() implies pushed.chunk.code.len() <= #[trigger] read.1[k]
        < code.len() && code[read.1[k] as int].1 == OpCode::Jump(
        (code.len() - 1 - read.1[k]) as isize,
    ) by {
        let place = read.1[k] as int;
        assert(0 <= k < read.1.len() && read.1[k] == place);
        assert(read.0.chunk.code[place].1 == OpCode::Jump(0));
        assert(jump_distance(read.1[k], end) == end - read.1[k]);
    }
}

} // verus!
