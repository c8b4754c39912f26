//! What holds of everything that the compiler emits.

use crate::compiler::rules::{
    arms_compiled, declaration_order, expression_compiled, fields_known, function_body_compiled,
    program_compiled, read_compiled, type_of,
};
use crate::compiler::state::{
    depth_delta, newest, newest_at, ordered, with_key, Build, CompileErrorView, CompilerView,
    Failure, VariableView,
};
use crate::parser::ast::Operator;
use crate::parser::model::{BlockView, ExpressionView, MatchVariantView, StatementView};
use crate::shared::{Positioned, Span};
use crate::typing::TypeView;
use crate::vm::chunk::ChunkView;
use crate::vm::op::OpCode;
use crate::vm::value::ObjectView;
use vstd::prelude::*;

verus! {

/// The empty program compiles to `Halt` alone: no constant, no variable, no
/// object.
pub proof fn lemma_empty_program_is_halt(compiler: CompilerView, heap: Seq<ObjectView>)
    ensures
        program_compiled(Seq::empty(), None, compiler, heap) == Ok::<Build, Failure>(
            Build {
                compiler,
                chunk: ChunkView { code: seq![(0usize, OpCode::Halt)], constants: Seq::empty() },
                heap,
            },
        ),
{
    assert(Seq::<(usize, OpCode)>::empty().push((0usize, OpCode::Halt)) =~= seq![
        (0usize, OpCode::Halt),
    ]);
}

/// The code of a program ends in `Halt`, and where an expression ends the
/// program, in `Return` and `Halt`.
pub proof fn lemma_program_ends_in_halt(
    statements: Seq<Positioned<StatementView>>,
    return_statement: Option<Positioned<StatementView>>,
    compiler: CompilerView,
    heap: Seq<ObjectView>,
)
    requires
        program_compiled(statements, return_statement, compiler, heap) is Ok,
    ensures
        ({
            let code = program_compiled(statements, return_statement, compiler, heap)->Ok_0.chunk.code;
            &&& code.len() > 0
            &&& code.last() == (0usize, OpCode::Halt)
            &&& return_statement is Some ==> code.len() > 1 && code[code.len() - 2].1
                == OpCode::Return
        }),
{
}

/// The listing of a compiled program holds every instruction of it in its
/// order, and so it ends in `Halt` as well.
pub proof fn lemma_listing_ends_in_halt(
    statements: Seq<Positioned<StatementView>>,
    return_statement: Option<Positioned<StatementView>>,
    compiler: CompilerView,
    heap: Seq<ObjectView>,
)
    requires
        program_compiled(statements, return_statement, compiler, heap) is Ok,
    ensures
        ({
            let chunk = program_compiled(statements, return_statement, compiler, heap)->Ok_0.chunk;
            &&& chunk.listing().len() == chunk.code.len()
            &&& chunk.listing().len() > 0
            &&& chunk.listing().last().value == OpCode::Halt
            &&& forall|i: int|
                0 <= i < chunk.code.len() ==> (#[trigger] chunk.listing()[i]).value
                    == chunk.code[i].1
        }),
{
    lemma_program_ends_in_halt(statements, return_statement, compiler, heap);
}

/// The code of the body of a function ends in `Halt`.
pub proof fn lemma_function_ends_in_halt(body: BlockView, body_at: Span, build: Build)
    requires
        function_body_compiled(body, body_at, build) is Ok,
    ensures
        function_body_compiled(body, body_at, build)->Ok_0.0.chunk.code.len() > 0,
        function_body_compiled(body, body_at, build)->Ok_0.0.chunk.code.last() == (
            0usize,
            OpCode::Halt,
        ),
{
}

/// A variable is found by its name as the newest one of that name.
pub proof fn lemma_newest_is_newest(variables: Seq<VariableView>, name: Seq<char>, upto: int)
    requires
        0 <= upto <= variables.len(),
    ensures
        match newest(variables, name, upto) {
            Some(slot) => 0 <= slot < upto && variables[slot].name == name && forall|later: int|
                slot < later < upto ==> (#[trigger] variables[later]).name != name,
            None => forall|any: int| 0 <= any < upto ==> (#[trigger] variables[any]).name != name,
        },
    decreases upto,
{
    if upto > 0 && variables[upto - 1].name != name {
        lemma_newest_is_newest(variables, name, upto - 1);
    }
}

/// The variable that a declaration in the scope at `depth` finds again is the
/// newest one of its name that was declared at that depth.
pub proof fn lemma_newest_at_is_newest(
    variables: Seq<VariableView>,
    name: Seq<char>,
    depth: usize,
    upto: int,
)
    requires
        0 <= upto <= variables.len(),
    ensures
        match newest_at(variables, name, depth, upto) {
            Some(slot) => 0 <= slot < upto && variables[slot].name == name
                && variables[slot].depth == depth && forall|later: int|
                slot < later < upto ==> !((#[trigger] variables[later]).name == name
                    && variables[later].depth == depth),
            None => forall|any: int|
                0 <= any < upto ==> !((#[trigger] variables[any]).name == name
                    && variables[any].depth == depth),
        },
    decreases upto,
{
    if upto > 0 && !(variables[upto - 1].name == name && variables[upto - 1].depth == depth) {
        lemma_newest_at_is_newest(variables, name, depth, upto - 1);
    }
}

/// A declaration of a name that the scope holds already changes nothing: it
/// gives the slot of the newest variable of that name in the scope, whatever
/// newer ones of the name other scopes hold. Where the scope holds none, the
/// newest one of the name takes the new type, mutability and place of
/// declaration, and no other variable changes. Where there is none of the name,
/// the table grows by one.
pub proof fn lemma_declaration_finds_its_scope(
    compiler: CompilerView,
    name: Seq<char>,
    ty: TypeView,
    mutable: bool,
    span: Option<Span>,
)
    requires
        compiler.variables.len() <= usize::MAX,
    ensures
        ({
            let declared = compiler.get_or_create_var(name, ty, mutable, span);
            let here = exists|slot: int|
                0 <= slot < compiler.variables.len() && (#[trigger] compiler.variables[slot]).name
                    == name && compiler.variables[slot].depth == compiler.scope_depth;
            let known = exists|slot: int|
                0 <= slot < compiler.variables.len() && (#[trigger] compiler.variables[slot]).name
                    == name;
            &&& declared.0.scope_depth == compiler.scope_depth
            &&& here ==> declared.0 == compiler && declared.1 < compiler.variables.len()
                && compiler.variables[declared.1 as int].name == name
                && compiler.variables[declared.1 as int].depth == compiler.scope_depth
            &&& !here && known ==> declared.1 < compiler.variables.len() && declared.0.variables
                == compiler.variables.update(
                declared.1 as int,
                VariableView { mutable, ty, span, ..compiler.variables[declared.1 as int] },
            ) && compiler.variables[declared.1 as int].name == name
            &&& !known ==> declared.0.variables == compiler.variables.push(
                VariableView { name, depth: compiler.scope_depth, mutable, ty, span },
            ) && declared.1 == compiler.variables.len()
        }),
{
    let count = compiler.variables.len() as int;
    lemma_newest_at_is_newest(compiler.variables, name, compiler.scope_depth, count);
    lemma_newest_is_newest(compiler.variables, name, count);
    let here = exists|slot: int|
        0 <= slot < compiler.variables.len() && (#[trigger] compiler.variables[slot]).name == name
            && compiler.variables[slot].depth == compiler.scope_depth;
    let known = exists|slot: int|
        0 <= slot < compiler.variables.len() && (#[trigger] compiler.variables[slot]).name == name;
    match newest_at(compiler.variables, name, compiler.scope_depth, count) {
        Some(slot) => {
            assert(compiler.variables[slot].name == name);
            assert(here);
        },
        None => {
            assert(!here);
        },
    }
    match newest(compiler.variables, name, count) {
        Some(slot) => {
            assert(compiler.variables[slot].name == name);
            assert(known);
        },
        None => {
            assert(!known);
        },
    }
}

/// A read of a variable compiles to one instruction, `GetLocal` with the depth
/// of the variable less the depth of the scope that reads it, and with its slot.
/// The slot is the place of the variable in the table, so no two variables
/// share one, and the variable read is the newest one of its name.
pub proof fn lemma_read_is_get_local(name: Seq<char>, span: Span, build: Build)
    requires
        build.compiler.variables.len() <= usize::MAX,
        build.compiler.scope_depth <= isize::MAX,
    ensures
        match newest(build.compiler.variables, name, build.compiler.variables.len() as int) {
            None => read_compiled(name, span, build) is Err,
            Some(slot) => {
                let variable = build.compiler.variables[slot];
                &&& 0 <= slot < build.compiler.variables.len()
                &&& variable.name == name
                &&& forall|later: int|
                    slot < later < build.compiler.variables.len() ==> (
                    #[trigger] build.compiler.variables[later]).name != name
                &&& read_compiled(name, span, build) is Ok
                &&& read_compiled(name, span, build)->Ok_0 == build.emit(
                    span.line,
                    OpCode::GetLocal(
                        depth_delta(variable.depth, build.compiler.scope_depth),
                        slot as usize,
                    ),
                )
                &&& variable.depth <= isize::MAX ==> depth_delta(
                    variable.depth,
                    build.compiler.scope_depth,
                ) == variable.depth - build.compiler.scope_depth
            },
        },
{
    lemma_newest_is_newest(
        build.compiler.variables,
        name,
        build.compiler.variables.len() as int,
    );
}

/// An arm with a name takes every value: where the first arm of a `match` is
/// one, the arms behind it make no difference to the code.
pub proof fn lemma_name_arm_ends_match(
    variants: Seq<Positioned<MatchVariantView>>,
    others: Seq<Positioned<MatchVariantView>>,
    target: TypeView,
    span: Span,
    build: Build,
    jumps: Seq<usize>,
)
    requires
        variants.len() > 0,
        others.len() > 0,
        variants[0] == others[0],
        variants[0].value.case.value is Ident,
    ensures
        arms_compiled(variants, 0, target, span, build, jumps) == arms_compiled(
            others,
            0,
            target,
            span,
            build,
            jumps,
        ),
{
}

/// The same of the whole `match`: two that match the same and begin with the
/// same arm with a name compile to the same, whatever arms follow.
pub proof fn lemma_match_ignores_arms_behind_name(
    scrutinee: Positioned<ExpressionView>,
    variants: Seq<Positioned<MatchVariantView>>,
    others: Seq<Positioned<MatchVariantView>>,
    span: Span,
    build: Build,
)
    requires
        variants.len() > 0,
        others.len() > 0,
        variants[0] == others[0],
        variants[0].value.case.value is Ident,
    ensures
        expression_compiled(
            ExpressionView::Match { scrutinee: Box::new(scrutinee), variants },
            span,
            build,
        ) == expression_compiled(
            ExpressionView::Match { scrutinee: Box::new(scrutinee), variants: others },
            span,
            build,
        ),
{
    let first = ExpressionView::Match { scrutinee: Box::new(scrutinee), variants };
    let second = ExpressionView::Match { scrutinee: Box::new(scrutinee), variants: others };
    match crate::compiler::rules::type_of(scrutinee.value, scrutinee.span, build.compiler) {
        Ok(target) => {
            match expression_compiled(scrutinee.value, scrutinee.span, build) {
                Ok(pushed) => {
                    lemma_name_arm_ends_match(variants, others, target, span, pushed, Seq::empty());
                },
                Err(_) => {},
            }
        },
        Err(_) => {},
    }
}

/// What `with_key` holds: the places below `upto` with that key, each once, in
/// rising order.
pub proof fn lemma_with_key(keys: Seq<int>, key: int, upto: int)
    requires
        0 <= upto <= keys.len(),
    ensures
        forall|k: int|
            0 <= k < with_key(keys, key, upto).len() ==> 0 <= (#[trigger] with_key(
                keys,
                key,
                upto,
            )[k]) < upto && keys[with_key(keys, key, upto)[k]] == key,
        forall|k: int, l: int|
            0 <= k < l < with_key(keys, key, upto).len() ==> with_key(keys, key, upto)[k]
                < with_key(keys, key, upto)[l],
        forall|place: int|
            0 <= place < upto && keys[place] == key ==> with_key(keys, key, upto).contains(place),
    decreases upto,
{
    if upto > 0 {
        lemma_with_key(keys, key, upto - 1);
        let before = with_key(keys, key, upto - 1);
        let now = with_key(keys, key, upto);
        if keys[upto - 1] == key {
            assert(now == before.push(upto - 1));
            assert forall|place: int| 0 <= place < upto && keys[place] == key implies now.contains(
                place,
            ) by {
                if place == upto - 1 {
                    assert(now[now.len() - 1] == place);
                } else {
                    assert(before.contains(place));
                    let k = choose|k: int| 0 <= k < before.len() && before[k] == place;
                    assert(now[k] == place);
                }
            }
        }
    }
}

/// The order in which the values of a new struct are checked and compiled is
/// the order of the declaration: `ordered` holds every place whose key is
/// below `bound`, each once, those with a smaller key first, and those with
/// the same key in the order they were given in.
pub proof fn lemma_ordered_is_sorted(keys: Seq<int>, bound: int)
    requires
        0 <= bound,
    ensures
        forall|k: int|
            0 <= k < ordered(keys, bound).len() ==> 0 <= (#[trigger] ordered(keys, bound)[k])
                < keys.len() && 0 <= keys[ordered(keys, bound)[k]] < bound,
        forall|k: int, l: int|
            0 <= k < l < ordered(keys, bound).len() ==> keys[ordered(keys, bound)[k]]
                < keys[ordered(keys, bound)[l]] || (keys[ordered(keys, bound)[k]]
                == keys[ordered(keys, bound)[l]] && ordered(keys, bound)[k] < ordered(
                keys,
                bound,
            )[l]),
        forall|place: int|
            0 <= place < keys.len() && 0 <= keys[place] < bound ==> ordered(keys, bound).contains(
                place,
            ),
    decreases bound,
{
    if bound > 0 {
        lemma_ordered_is_sorted(keys, bound - 1);
        lemma_with_key(keys, bound - 1, keys.len() as int);
        let before = ordered(keys, bound - 1);
        let added = with_key(keys, bound - 1, keys.len() as int);
        let now = ordered(keys, bound);
        assert(now == before + added);
        assert forall|k: int| 0 <= k < now.len() implies 0 <= (#[trigger] now[k]) < keys.len()
            && 0 <= keys[now[k]] < bound by {
            if k < before.len() {
                assert(now[k] == before[k]);
            } else {
                assert(now[k] == added[k - before.len()]);
            }
        }
        assert forall|k: int, l: int| 0 <= k < l < now.len() implies keys[now[k]] < keys[now[l]]
            || (keys[now[k]] == keys[now[l]] && now[k] < now[l]) by {
            if l < before.len() {
                assert(now[k] == before[k] && now[l] == before[l]);
            } else if k < before.len() {
                assert(now[k] == before[k]);
                assert(now[l] == added[l - before.len()]);
            } else {
                assert(now[k] == added[k - before.len()]);
                assert(now[l] == added[l - before.len()]);
            }
        }
        assert forall|place: int|
            0 <= place < keys.len() && 0 <= keys[place] < bound implies now.contains(place) by {
            if keys[place] < bound - 1 {
                assert(before.contains(place));
                let k = choose|k: int| 0 <= k < before.len() && before[k] == place;
                assert(now[k] == place);
            } else {
                assert(added.contains(place));
                let k = choose|k: int| 0 <= k < added.len() && added[k] == place;
                assert(now[before.len() + k] == place);
            }
        }
    }
}

/// The values of a new struct are taken in the order in which the struct
/// declares their fields, whatever order they are given in: where every given
/// field is one of the struct, each is taken once, one whose field is declared
/// earlier before one whose field is declared later, and those given for the
/// same field in the order they were given in. It is in this order that their
/// types are checked against the fields and that their code follows.
pub proof fn lemma_values_in_declaration_order(
    given: Seq<Positioned<crate::parser::model::StructFieldValueView>>,
    fields: Seq<(Seq<char>, TypeView)>,
)
    requires
        forall|i: int|
            0 <= i < given.len() ==> crate::compiler::state::position(
                fields,
                (#[trigger] given[i]).value.name.value,
            ) is Some,
    ensures
        ({
            let order = declaration_order(given, fields);
            let place = |i: int|
                crate::compiler::state::position(fields, given[i].value.name.value)->Some_0;
            &&& forall|k: int| 0 <= k < order.len() ==> 0 <= #[trigger] order[k] < given.len()
            &&& forall|k: int, l: int|
                0 <= k < l < order.len() ==> place(order[k]) < place(order[l]) || (place(order[k])
                    == place(order[l]) && order[k] < order[l])
            &&& forall|i: int| 0 <= i < given.len() ==> order.contains(i)
        }),
{
    let keys = Seq::new(
        given.len(),
        |i: int|
            match crate::compiler::state::position(fields, given[i].value.name.value) {
                Some(place) => place,
                None => -1,
            },
    );
    lemma_ordered_is_sorted(keys, fields.len() as int);
    assert forall|i: int| 0 <= i < given.len() implies 0 <= #[trigger] keys[i] < fields.len() by {
        lemma_position_in_range(fields, given[i].value.name.value, 0);
    }
    let order = declaration_order(given, fields);
    assert(order == ordered(keys, fields.len() as int));
    assert forall|k: int, l: int| 0 <= k < l < order.len() implies keys[order[k]]
        < keys[order[l]] || (keys[order[k]] == keys[order[l]] && order[k] < order[l]) by {}
}

/// The place of a field is a place among the fields, and the field there has
/// the name that was looked for.
pub proof fn lemma_position_in_range(fields: Seq<(Seq<char>, TypeView)>, name: Seq<char>, from: int)
    requires
        0 <= from,
    ensures
        match crate::compiler::state::position_from(fields, name, from) {
            Some(place) => from <= place < fields.len() && fields[place].0 == name,
            None => true,
        },
    decreases fields.len() - from,
{
    if from < fields.len() && fields[from].0 != name {
        lemma_position_in_range(fields, name, from + 1);
    }
}

/// An assignment to a variable that was declared as a constant is refused, and
/// so is one of a value of another type than the variable's. Neither changes
/// the table, the code or the heap.
pub proof fn lemma_refused_assignment_changes_nothing(
    expression: ExpressionView,
    span: Span,
    build: Build,
)
    requires
        expression matches ExpressionView::Binary { lhs, rhs, operator } && operator.value
            == Operator::Assign && lhs.value is Ident,
        build.compiler.get_var(
            expression->Binary_lhs.span,
            expression->Binary_lhs.value->Ident_0,
        ) is Ok,
    ensures
        ({
            let lhs = expression->Binary_lhs;
            let rhs = expression->Binary_rhs;
            let name = lhs.value->Ident_0;
            let variable = build.compiler.get_var(lhs.span, name)->Ok_0.1;
            let found = type_of(rhs.value, rhs.span, build.compiler);
            &&& !variable.mutable ==> expression_compiled(expression, span, build) == Err::<
                Build,
                Failure,
            >(
                Failure {
                    error: CompileErrorView::ImmutableVariable {
                        name,
                        accessed_at: lhs.span,
                        declared_at: variable.span,
                    },
                    build,
                },
            )
            &&& variable.mutable && found is Ok && found->Ok_0 != variable.ty
                ==> expression_compiled(expression, span, build) == Err::<Build, Failure>(
                Failure {
                    error: CompileErrorView::TypeExpected {
                        expected: variable.ty,
                        found: found->Ok_0,
                        at: rhs.span,
                    },
                    build,
                },
            )
        }),
{
}

/// A record made of another number of values than it declares is refused, and
/// so is a struct made with a field that it does not declare. Neither changes
/// the table, the code or the heap.
pub proof fn lemma_refused_instance_changes_nothing(
    expression: ExpressionView,
    span: Span,
    build: Build,
)
    requires
        expression is NewInstance,
        build.compiler.get_var(
            expression->NewInstance_class.span,
            expression->NewInstance_class.value,
        ) is Ok,
    ensures
        ({
            let class = expression->NewInstance_class;
            let values = expression->NewInstance_values;
            let variable = build.compiler.get_var(class.span, class.value)->Ok_0.1;
            &&& variable.ty is Record && values.value is Record
                && values.value->Record_0.len() != variable.ty->Record_items.len()
                ==> expression_compiled(expression, span, build) == Err::<Build, Failure>(
                Failure {
                    error: CompileErrorView::InvalidArgumentsCount {
                        expected: variable.ty->Record_items.len() as usize,
                        got: values.value->Record_0.len() as usize,
                        function_at: variable.span,
                        at: span,
                    },
                    build,
                },
            )
            &&& variable.ty is Struct && values.value is Struct ==> match fields_known(
                values.value->Struct_0,
                variable.ty->Struct_name,
                variable.ty->Struct_fields,
                variable.span,
                0,
            ) {
                Err(error) => expression_compiled(expression, span, build) == Err::<
                    Build,
                    Failure,
                >(Failure { error, build }),
                Ok(_) => true,
            }
        }),
{
}

/// An `if` whose condition is no boolean is refused, and nothing is changed.
pub proof fn lemma_refused_condition_changes_nothing(
    expression: ExpressionView,
    span: Span,
    build: Build,
)
    requires
        expression is IfElse,
        type_of(
            expression->IfElse_condition.value,
            expression->IfElse_condition.span,
            build.compiler,
        ) matches Ok(found) && found != TypeView::Boolean,
    ensures
        expression_compiled(expression, span, build) == Err::<Build, Failure>(
            Failure {
                error: CompileErrorView::TypeExpected {
                    expected: TypeView::Boolean,
                    found: type_of(
                        expression->IfElse_condition.value,
                        expression->IfElse_condition.span,
                        build.compiler,
                    )->Ok_0,
                    at: expression->IfElse_condition.span,
                },
                build,
            },
        ),
{
}

} // verus!
