use tapt::compiler::{CompileError, Compiler, InstanceArgsType};
use tapt::parser::{
    BinaryExpression, Block, Expression, Ident, IfElseExpression, Literal, Number, Operator,
    Statement,
};
use tapt::vm::{Chunk, Heap, Object, OpCode, Outcome, Value, VM};
use tapt::{Positioned, Runtime, RuntimeError, Span, Type};
use tapt::compiler::{Compile, CompilePositioned, GetType};
use tapt::compiler::CompileAssign;

const FUEL: usize = 10_000;

fn at(line: usize) -> Span {
    Span::new(0, 0, line, 0)
}

fn boolean(value: bool) -> Positioned<Expression> {
    at(1).wrap(Expression::Literal(Literal::Boolean(value)))
}

fn integer(value: i64) -> Positioned<Expression> {
    at(1).wrap(Expression::Literal(Literal::Number(Number::Int(value))))
}

fn binary(lhs: Positioned<Expression>, operator: Operator, rhs: Positioned<Expression>) -> Positioned<Expression> {
    at(2).wrap(Expression::Binary(Box::new(BinaryExpression { lhs, rhs, operator: at(3).wrap(operator) })))
}

fn ops(chunk: &Chunk) -> Vec<OpCode> {
    chunk.code.iter().map(|entry| entry.1).collect()
}

fn compiled(text: &str) -> Chunk {
    let mut runtime = Runtime::new();
    runtime.run(text, 0).unwrap();
    runtime.chunk
}

fn refused(text: &str) -> CompileError {
    match Runtime::new().run(text, 0) {
        Err(RuntimeError::CompileError(error)) => error,
        other => panic!("{other:?}"),
    }
}

/// Compiles an expression as the value of a program.
fn program(expression: Positioned<Expression>) -> (Chunk, Heap) {
    let mut heap = Heap::new();
    let ending = expression.span.wrap(Statement::Expression(expression.value));
    let chunk = Compiler::new().compile(&mut heap, &Vec::new(), Some(&ending)).unwrap();
    (chunk, heap)
}

/// Where every jump of the code leads.
fn targets(chunk: &Chunk) -> Vec<isize> {
    let mut targets = Vec::new();
    for (place, entry) in chunk.code.iter().enumerate() {
        match entry.1 {
            OpCode::Jump(offset) => targets.push(place as isize + offset + 1),
            OpCode::JumpIfFalse(offset) => targets.push((place + offset + 1) as isize),
            _ => {}
        }
    }
    targets
}

#[test]
fn the_empty_program_compiles_to_halt() {
    let mut heap = Heap::new();
    let chunk = Compiler::new().compile(&mut heap, &Vec::new(), None).unwrap();
    assert_eq!(chunk.code, vec![(0, OpCode::Halt)]);
    assert!(chunk.constants.is_empty());
    assert!(heap.objects.is_empty());
}

#[test]
fn and_jumps_over_its_right_side() {
    let (chunk, heap) = program(binary(boolean(true), Operator::And, boolean(false)));
    assert_eq!(
        ops(&chunk),
        vec![
            OpCode::LoadConst(0),
            OpCode::JumpIfFalse(3),
            OpCode::Pop,
            OpCode::LoadConst(1),
            OpCode::Return,
            OpCode::Halt,
        ]
    );
    assert_eq!(chunk.code[1].0, 2);
    assert_eq!(VM::new(heap).interpret(&chunk, FUEL), Outcome::Finished(Value::Boolean(false)));
}

#[test]
fn and_does_not_run_its_right_side_behind_false() {
    let division = binary(integer(1), Operator::Div, integer(0));
    let right = binary(division, Operator::Equal, integer(1));
    let (chunk, heap) = program(binary(boolean(false), Operator::And, right));
    assert_eq!(VM::new(heap).interpret(&chunk, FUEL), Outcome::Finished(Value::Nothing));
    let division = binary(integer(1), Operator::Div, integer(0));
    let right = binary(division, Operator::Equal, integer(1));
    let (chunk, heap) = program(binary(boolean(true), Operator::And, right));
    assert_eq!(
        VM::new(heap).interpret(&chunk, FUEL),
        Outcome::Fault(tapt::vm::Fault::DivisionByZero)
    );
}

#[test]
fn and_takes_booleans_on_both_sides() {
    let mut heap = Heap::new();
    let mut chunk = Chunk::new();
    let wrong = binary(boolean(false), Operator::And, integer(1));
    let error = Expression::compile(&wrong.value, &mut Compiler::new(), &mut heap, wrong.span, &mut chunk);
    assert_eq!(
        error,
        Err(CompileError::TypeExpected { expected: Type::Boolean, found: Type::Integer, at: at(1) })
    );
    let wrong = binary(integer(1), Operator::Or, integer(1));
    let error = Expression::compile(&wrong.value, &mut Compiler::new(), &mut heap, wrong.span, &mut chunk);
    assert_eq!(
        error,
        Err(CompileError::TypeExpected { expected: Type::Boolean, found: Type::Integer, at: at(1) })
    );
}

#[test]
fn or_jumps_over_its_jump() {
    let (chunk, _) = program(binary(boolean(true), Operator::Or, boolean(false)));
    assert_eq!(
        ops(&chunk),
        vec![
            OpCode::LoadConst(0),
            OpCode::JumpIfFalse(1),
            OpCode::Jump(3),
            OpCode::Pop,
            OpCode::LoadConst(1),
            OpCode::Return,
            OpCode::Halt,
        ]
    );
}

#[test]
fn a_conditional_without_else_jumps_behind_its_block() {
    let chunk = compiled("if true { 1 }");
    assert_eq!(
        ops(&chunk),
        vec![
            OpCode::LoadConst(0),
            OpCode::JumpIfFalse(4),
            OpCode::PushFrame,
            OpCode::LoadConst(1),
            OpCode::Return,
            OpCode::PopFrame,
            OpCode::Return,
            OpCode::Halt,
        ]
    );
}

#[test]
fn a_conditional_with_else_jumps_into_it_and_over_it() {
    let chunk = compiled("if true { 1 } else { 2 }");
    assert_eq!(
        ops(&chunk),
        vec![
            OpCode::LoadConst(0),
            OpCode::JumpIfFalse(5),
            OpCode::PushFrame,
            OpCode::LoadConst(1),
            OpCode::Return,
            OpCode::PopFrame,
            OpCode::Jump(4),
            OpCode::PushFrame,
            OpCode::LoadConst(2),
            OpCode::Return,
            OpCode::PopFrame,
            OpCode::Return,
            OpCode::Halt,
        ]
    );
    assert_eq!(chunk.constants, vec![Value::Boolean(true), Value::Integer(1), Value::Integer(2)]);
}

#[test]
fn the_arms_of_a_match_jump_to_the_next_arm_and_to_the_end() {
    let chunk = compiled("match 2 { 1 => 10, 2 => 20 }");
    assert_eq!(
        ops(&chunk),
        vec![
            OpCode::LoadConst(0),
            OpCode::Copy,
            OpCode::LoadConst(1),
            OpCode::Equal,
            OpCode::JumpIfFalse(3),
            OpCode::Pop,
            OpCode::LoadConst(2),
            OpCode::Jump(7),
            OpCode::Copy,
            OpCode::LoadConst(3),
            OpCode::Equal,
            OpCode::JumpIfFalse(3),
            OpCode::Pop,
            OpCode::LoadConst(4),
            OpCode::Jump(0),
            OpCode::Return,
            OpCode::Halt,
        ]
    );
}

#[test]
fn an_arm_with_a_name_binds_and_ends_the_match() {
    let with_more = compiled("match 7 { x => x, 7 => 0, 8 => 1 }");
    let alone = compiled("match 7 { x => x }");
    assert_eq!(ops(&with_more), ops(&alone));
    assert_eq!(with_more.constants, alone.constants);
    assert_eq!(
        ops(&alone),
        vec![
            OpCode::LoadConst(0),
            OpCode::PushFrame,
            OpCode::SetLocal(None, 0),
            OpCode::GetLocal(0, 0),
            OpCode::Return,
            OpCode::PopFrame,
            OpCode::Return,
            OpCode::Halt,
        ]
    );
}

#[test]
fn the_arms_behind_a_name_are_not_even_checked() {
    assert_eq!(ops(&compiled("match 7 { x => x, true => y }")), ops(&compiled("match 7 { x => x }")));
    assert!(matches!(refused("match 7 { true => 1 }"), CompileError::TypeExpected { .. }));
}

#[test]
fn every_jump_leads_into_the_code() {
    for text in [
        "if true { 1 } else { 2 }",
        "if true { 1 }",
        "if true { if false { 1 } } else if false { 2 } else { 3 }",
        "match 2 { 1 => 10, 2 => 20, 3 => 30 }",
        "match 2 { 1 => if true { 1 } else { 2 }, x => x }",
        "let x = if true { 1 } else { 2 }; match x { 1 => 2 }",
        "func f(a: int): int { if a < 1 { 0 } else { f(a - 1) } } f(3)",
    ] {
        let chunk = compiled(text);
        for target in targets(&chunk) {
            assert!(0 <= target && (target as usize) < chunk.len(), "{text}: {target}");
        }
    }
}

#[test]
fn a_short_circuit_at_the_very_end_jumps_behind_the_code() {
    let mut heap = Heap::new();
    let last = binary(boolean(false), Operator::And, boolean(true));
    let statements = vec![last.span.wrap(Statement::Expression(last.value))];
    let chunk = Compiler::new().compile(&mut heap, &statements, None).unwrap();
    assert_eq!(
        ops(&chunk),
        vec![
            OpCode::LoadConst(0),
            OpCode::JumpIfFalse(3),
            OpCode::Pop,
            OpCode::LoadConst(1),
            OpCode::Halt,
        ]
    );
    assert_eq!(targets(&chunk), vec![5]);
    assert_eq!(chunk.len(), 5);
}

#[test]
fn a_variable_is_read_from_the_frame_it_lives_in() {
    let chunk = compiled("let x = 1; { { x } }");
    assert!(ops(&chunk).contains(&OpCode::GetLocal(-2, 0)));
    let chunk = compiled("let x = 1; let y = 2; y");
    let code = ops(&chunk);
    assert_eq!(code[code.len() - 3], OpCode::GetLocal(0, 1));
}

#[test]
fn an_assignment_names_the_frame_absolutely() {
    let chunk = compiled("let x = 1; { x = 2; }");
    assert!(ops(&chunk).contains(&OpCode::SetLocal(Some(0), 0)));
}

#[test]
fn not_equal_is_equal_negated() {
    let code = ops(&compiled("1 != 2"));
    assert_eq!(code[2..4].to_vec(), vec![OpCode::Equal, OpCode::Negate]);
}

#[test]
fn the_values_of_a_struct_are_compiled_in_the_order_of_the_declaration() {
    let chunk = compiled("struct S { a: int, b: bool, c: int } new S{ c: 3, a: 1, b: true }");
    assert_eq!(
        chunk.constants[1..].to_vec(),
        vec![Value::Integer(1), Value::Boolean(true), Value::Integer(3)]
    );
    let code = ops(&chunk);
    assert_eq!(
        code[2..].to_vec(),
        vec![
            OpCode::LoadConst(1),
            OpCode::LoadConst(2),
            OpCode::LoadConst(3),
            OpCode::GetLocal(0, 0),
            OpCode::CreateInstance,
            OpCode::Return,
            OpCode::Halt,
        ]
    );
    match refused("struct S { a: int, b: bool } new S{ b: 1, a: 1 }") {
        CompileError::TypeExpected { expected, found, .. } => {
            assert_eq!(expected, Type::Boolean);
            assert_eq!(found, Type::Integer);
        }
        other => panic!("{other:?}"),
    }
}

#[test]
fn a_declaration_becomes_a_constant_and_a_local() {
    let mut runtime = Runtime::new();
    runtime.run("record P(int, bool);", 0).unwrap();
    assert_eq!(
        ops(&runtime.chunk),
        vec![OpCode::LoadConst(0), OpCode::SetLocal(None, 0), OpCode::Halt]
    );
    assert_eq!(runtime.chunk.constants, vec![Value::Object(0)]);
    assert_eq!(
        runtime.vm.heap.objects[0],
        Object::Record(tapt::vm::Record {
            name: "P".to_string(),
            fields: vec![Type::Integer, Type::Boolean],
        })
    );
    assert_eq!(runtime.compiler.variables.len(), 1);
    assert_eq!(runtime.compiler.variables[0].name, "P");
    assert!(!runtime.compiler.variables[0].mutable);
}

#[test]
fn a_function_is_compiled_on_its_own() {
    let mut runtime = Runtime::new();
    runtime.run("let k = 1; func f(a: int, b: int): int { a + b }", 0).unwrap();
    assert_eq!(runtime.compiler.variables.len(), 2);
    match &runtime.vm.heap.objects[0] {
        Object::Function(function) => {
            assert_eq!(function.meta.name, "f");
            assert_eq!(function.meta.args, vec![Type::Integer, Type::Integer]);
            assert_eq!(function.meta.output, Type::Integer);
            assert_eq!(
                ops(&function.chunk),
                vec![
                    OpCode::GetLocal(0, 0),
                    OpCode::GetLocal(0, 1),
                    OpCode::Add,
                    OpCode::Return,
                    OpCode::Halt,
                ]
            );
        }
        other => panic!("{other:?}"),
    }
    assert!(matches!(
        refused("let k = 1; func f(): int { k }"),
        CompileError::VariableNotExist { .. }
    ));
    assert!(matches!(refused("func f(): int { true }"), CompileError::TypeExpected { .. }));
    assert!(matches!(refused("func f() { 1 }"), CompileError::TypeExpected { .. }));
}

#[test]
fn a_declaration_finds_the_variable_of_its_own_scope() {
    let mut compiler = Compiler::new();
    compiler.create_var("x".to_string(), true, Type::Integer, Some(at(1)));
    compiler.push_scope();
    compiler.create_var("x".to_string(), false, Type::Float, Some(at(2)));
    compiler.pop_scope();
    let slot = compiler.get_or_create_var("x".to_string(), Type::Boolean, false, Some(at(3)));
    assert_eq!(slot, 0);
    assert_eq!(compiler.variables.len(), 2);
    assert_eq!(compiler.variables[0].ty, Type::Integer);
    assert!(compiler.variables[0].mutable);
    assert_eq!(compiler.variables[0].span, Some(at(1)));
    assert_eq!(compiler.variables[1].ty, Type::Float);
    assert!(!compiler.variables[1].mutable);
    assert_eq!(compiler.variables[1].span, Some(at(2)));
    compiler.push_scope();
    compiler.push_scope();
    let slot = compiler.get_or_create_var("x".to_string(), Type::Boolean, true, Some(at(4)));
    assert_eq!(slot, 1);
    assert_eq!(compiler.variables.len(), 2);
    assert_eq!(compiler.variables[0].ty, Type::Integer);
    assert_eq!(compiler.variables[1].ty, Type::Boolean);
    assert!(compiler.variables[1].mutable);
    assert_eq!(compiler.variables[1].depth, 1);
    assert_eq!(compiler.variables[1].span, Some(at(4)));
}

#[test]
fn a_declaration_behind_a_match_keeps_its_slot() {
    let chunk = compiled("let x = 1; match 2 { x => x }; let x = 5; x");
    let code = ops(&chunk);
    assert_eq!(
        code[code.len() - 5..].to_vec(),
        vec![
            OpCode::LoadConst(2),
            OpCode::SetLocal(None, 0),
            OpCode::GetLocal(1, 1),
            OpCode::Return,
            OpCode::Halt,
        ]
    );
}

#[test]
fn a_name_declared_again_keeps_or_shadows() {
    let mut compiler = Compiler::new();
    let first = compiler.get_or_create_var("x".to_string(), Type::Integer, true, None);
    let second = compiler.get_or_create_var("x".to_string(), Type::Boolean, false, None);
    assert_eq!((first, second), (0, 0));
    assert_eq!(compiler.variables[0].ty, Type::Integer);
    assert!(compiler.variables[0].mutable);
    compiler.push_scope();
    let third = compiler.get_or_create_var("x".to_string(), Type::Boolean, false, Some(at(4)));
    assert_eq!(third, 0);
    assert_eq!(compiler.variables[0].ty, Type::Boolean);
    assert!(!compiler.variables[0].mutable);
    assert_eq!(compiler.variables[0].depth, 0);
    assert_eq!(compiler.variables[0].span, Some(at(4)));
    let fourth = compiler.create_var("x".to_string(), true, Type::Float, None);
    assert_eq!(fourth, 1);
    assert_eq!(compiler.variables[1].depth, 1);
    let (slot, variable) = compiler.get_var(at(0), &"x".to_string()).unwrap();
    assert_eq!(slot, 1);
    assert_eq!(variable.ty, Type::Float);
    compiler.pop_scope();
    assert_eq!(compiler.variables.len(), 2);
    assert_eq!(compiler.scope_depth, 0);
    let fifth = compiler.get_or_create_var("x".to_string(), Type::String, true, Some(at(5)));
    assert_eq!(fifth, 0);
    assert_eq!(compiler.variables.len(), 2);
    assert_eq!(compiler.variables[0].ty, Type::Boolean);
    assert_eq!(compiler.variables[0].span, Some(at(4)));
    assert_eq!(compiler.variables[1].ty, Type::Float);
    assert_eq!(compiler.variables[1].span, None);
    assert_eq!(
        compiler.get_var(at(9), &"y".to_string()).err(),
        Some(CompileError::VariableNotExist { name: "y".to_string(), accessed_at: at(9) })
    );
}

#[test]
fn a_host_function_is_a_variable() {
    let mut compiler = Compiler::new();
    let slot = compiler.add_native_func("sum".to_string(), vec![Type::Any], None);
    assert_eq!(slot, 0);
    assert_eq!(
        compiler.variables[0].ty,
        Type::Function(tapt::FunctionType { args: vec![Type::Any], output_type: Box::new(Type::Nothing) })
    );
    assert!(!compiler.variables[0].mutable);
}

#[test]
fn jumps_are_patched_and_other_instructions_are_not() {
    let mut chunk = Chunk::new();
    chunk.push(0, OpCode::Jump(0));
    chunk.push(0, OpCode::JumpIfFalse(0));
    chunk.push(0, OpCode::Pop);
    Compiler::patch_jump(&mut chunk, 0, 7);
    Compiler::patch_jump(&mut chunk, 1, 7);
    Compiler::patch_jump(&mut chunk, 2, 7);
    Compiler::patch_jump(&mut chunk, 3, 7);
    assert_eq!(ops(&chunk), vec![OpCode::Jump(7), OpCode::JumpIfFalse(6), OpCode::Pop]);
    Compiler::patch_jump(&mut chunk, 0, 0);
    assert_eq!(chunk.code[0].1, OpCode::Jump(0));
    assert_eq!(Compiler::create_const(&mut chunk, Value::Integer(4)), 0);
    assert_eq!(Compiler::create_const(&mut chunk, Value::Integer(4)), 1);
    Compiler::compile_const(&mut chunk, 9, Value::Boolean(true));
    assert_eq!(chunk.code[3], (9, OpCode::LoadConst(2)));
}

#[test]
fn the_arguments_of_a_call_are_checked() {
    assert!(matches!(
        refused("func f(a: int): int { a } f(true)"),
        CompileError::TypeExpected { .. }
    ));
    match refused("func f(a: int): int { a } f()") {
        CompileError::InvalidArgumentsCount { expected, got, .. } => assert_eq!((expected, got), (1, 0)),
        other => panic!("{other:?}"),
    }
    assert!(matches!(refused("let f = 1; f(1)"), CompileError::TypeExpected { .. }));
    let code = ops(&compiled("func f(a: int, b: int): int { a } f(1, 2)"));
    assert_eq!(
        code[2..].to_vec(),
        vec![
            OpCode::GetLocal(0, 0),
            OpCode::LoadConst(1),
            OpCode::LoadConst(2),
            OpCode::Call(2),
            OpCode::Return,
            OpCode::Halt,
        ]
    );
}

#[test]
fn the_values_of_a_new_instance_are_checked() {
    match refused("record P(int); new P{ a: 1 }") {
        CompileError::InvalidInstanceArgs { expected, got, .. } => {
            assert_eq!(expected, InstanceArgsType::Record);
            assert_eq!(got, InstanceArgsType::Struct);
        }
        other => panic!("{other:?}"),
    }
    assert!(matches!(
        refused("struct S { a: int } new S(1)"),
        CompileError::InvalidInstanceArgs { .. }
    ));
    assert!(matches!(refused("record P(int); new P(1, 2)"), CompileError::InvalidArgumentsCount { .. }));
    assert!(matches!(refused("record P(int); new P(true)"), CompileError::TypeExpected { .. }));
    assert!(matches!(refused("let p = 1; new p(1)"), CompileError::OneOfTypeExpected { .. }));
    match refused("struct S { a: int } new S{ b: 1 }") {
        CompileError::PropertyNotExist { target, property, .. } => {
            assert_eq!((target.as_str(), property.as_str()), ("S", "b"));
        }
        other => panic!("{other:?}"),
    }
}

#[test]
fn properties_are_looked_up() {
    match refused("record P(int); const p = new P(1); p.12") {
        CompileError::PropertyNotExist { target, property, .. } => {
            assert_eq!((target.as_str(), property.as_str()), ("P", "12"));
        }
        other => panic!("{other:?}"),
    }
    assert!(matches!(
        refused("record P(int); const p = new P(1); p.a"),
        CompileError::InvalidInstanceArgs { .. }
    ));
    assert!(matches!(
        refused("struct S { a: int } const s = new S{ a: 1 }; s.0"),
        CompileError::InvalidInstanceArgs { .. }
    ));
    assert!(matches!(
        refused("struct S { a: int } const s = new S{ a: 1 }; s.b"),
        CompileError::PropertyNotExist { .. }
    ));
}

#[test]
fn types_are_found() {
    let compiler = Compiler::new();
    assert_eq!(integer(1).value.get_type(&compiler, at(0)), Ok(Type::Integer));
    assert_eq!(boolean(true).value.get_type(&compiler, at(0)), Ok(Type::Boolean));
    let comparison = binary(integer(1), Operator::LessThan, integer(2));
    assert_eq!(comparison.value.get_type(&compiler, at(0)), Ok(Type::Boolean));
    let sum = binary(integer(1), Operator::Add, integer(2));
    assert_eq!(sum.value.get_type(&compiler, at(0)), Ok(Type::Integer));
    let unknown = Expression::Ident(Ident("x".to_string()));
    assert!(unknown.get_type(&compiler, at(0)).is_err());
    let block = Block { statements: Vec::new(), return_statement: None };
    assert_eq!(block.get_type(&compiler), Ok(Type::Nothing));
    let branch = IfElseExpression {
        condition: Box::new(boolean(true)),
        block: at(0).wrap(Block { statements: Vec::new(), return_statement: None }),
        else_block: None,
    };
    assert_eq!(Expression::IfElse(branch).get_type(&compiler, at(0)), Ok(Type::Nothing));
    assert!(integer(1).value.is_supported());
}

#[test]
fn constructs_are_compiled_at_their_place() {
    let mut heap = Heap::new();
    let mut chunk = Chunk::new();
    let mut compiler = Compiler::new();
    let five = Span::new(0, 1, 5, 0).wrap(Expression::Literal(Literal::Number(Number::Int(5))));
    assert_eq!(GetType::get_type(&five, &compiler, at(9)), Ok(Type::Integer));
    assert_eq!(CompilePositioned::compile(&five, &mut compiler, &mut heap, &mut chunk), Ok(()));
    assert_eq!(chunk.code, vec![(5, OpCode::LoadConst(0))]);
    assert_eq!(Compile::compile(&five.value, &mut compiler, &mut heap, at(7), &mut chunk), Ok(()));
    assert_eq!(chunk.code[1], (7, OpCode::LoadConst(1)));
    let text = at(1).wrap(Expression::Literal(Literal::String("hi".to_string())));
    assert_eq!(CompilePositioned::compile(&text, &mut compiler, &mut heap, &mut chunk), Ok(()));
    assert_eq!(chunk.constants[2], Value::Object(0));
    assert_eq!(heap.objects[0], Object::String("hi".to_string()));
}

#[test]
fn what_can_be_assigned_to_is_compiled_with_its_value() {
    let mut heap = Heap::new();
    let mut chunk = Chunk::new();
    let mut compiler = Compiler::new();
    compiler.create_var("x".to_string(), true, Type::Integer, None);
    compiler.create_var("k".to_string(), false, Type::Integer, None);
    let x = || Ident("x".to_string());
    assert_eq!(CompileAssign::compile(x(), &mut compiler, &mut heap, at(3), &mut chunk, None), Ok(()));
    assert_eq!(chunk.code, vec![(3, OpCode::GetLocal(0, 0))]);
    let value = Some(integer(5));
    assert_eq!(CompileAssign::compile(x(), &mut compiler, &mut heap, at(4), &mut chunk, value), Ok(()));
    assert_eq!(chunk.code[1..].to_vec(), vec![(1, OpCode::LoadConst(0)), (4, OpCode::SetLocal(Some(0), 0))]);
    let wrong = Some(boolean(true));
    assert!(matches!(
        CompileAssign::compile(x(), &mut compiler, &mut heap, at(4), &mut chunk, wrong),
        Err(CompileError::TypeExpected { .. })
    ));
    let constant = Ident("k".to_string());
    assert_eq!(
        CompileAssign::compile(constant, &mut compiler, &mut heap, at(6), &mut chunk, Some(integer(1))),
        Err(CompileError::ImmutableVariable {
            name: "k".to_string(),
            accessed_at: at(6),
            declared_at: None,
        })
    );
    let literal = Expression::Literal(Literal::Boolean(false));
    let before = chunk.len();
    assert_eq!(
        CompileAssign::compile(literal, &mut compiler, &mut heap, at(8), &mut chunk, Some(integer(1))),
        Ok(())
    );
    assert_eq!(chunk.len(), before + 1);
}

/// What a runtime holds behind a refused program: its variables and its code.
fn left_behind(setup: &str, text: &str) -> (usize, usize, usize, Vec<OpCode>) {
    let mut runtime = Runtime::new();
    runtime.run(setup, 0).unwrap();
    let variables = runtime.compiler.variables.len();
    let objects = runtime.vm.heap.objects.len();
    assert!(matches!(runtime.run(text, 0), Err(RuntimeError::CompileError(_))));
    (
        runtime.compiler.variables.len() - variables,
        runtime.compiler.scope_depth,
        runtime.vm.heap.objects.len() - objects,
        ops(&runtime.chunk),
    )
}

#[test]
fn a_refusal_before_any_code_changes_nothing() {
    let setup = "const x = 1; let y = 2; record P(int, int); struct S { a: int }";
    let kept = ops(&compiled(setup));
    for text in [
        "x = 2;",
        "y = true;",
        "new P(1);",
        "new S { b: 1 };",
        "if 1 { 2 }",
        "z",
    ] {
        assert_eq!(left_behind(setup, text), (0, 0, 0, kept.clone()), "{text}");
    }
}

#[test]
fn a_refusal_keeps_what_was_declared_before_it() {
    let (variables, depth, objects, _) = left_behind("", "let a = 1; let b = \"text\"; a = true;");
    assert_eq!((variables, depth, objects), (2, 0, 1));
    let (variables, depth, _, _) = left_behind("", "{ let a = 1; a = true; }");
    assert_eq!((variables, depth), (1, 1));
}

#[test]
fn no_instruction_before_the_last_is_halt() {
    for text in [
        "",
        "let x = 1; x",
        "func f(a: int): int { a + 1 } if f(1) == 2 { 1 } else { 2 }",
        "match 2 { 1 => 10, 2 => 20, x => x }",
    ] {
        let code = ops(&compiled(text));
        let halts: Vec<usize> =
            (0..code.len()).filter(|&place| code[place] == OpCode::Halt).collect();
        assert_eq!(halts, vec![code.len() - 1], "{text}");
    }
}
