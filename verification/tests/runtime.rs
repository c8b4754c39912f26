use tapt::compiler::CompileError;
use tapt::vm::{Fault, Heap, Object, OpCode, Outcome, Request, Value};
use tapt::{Float, FunctionBuilder, Runtime, RuntimeError, Type};

const FUEL: usize = 100_000;

fn to_float(heap: &Heap, value: Float) -> f32 {
    match value {
        Float::Bits(bits) => f32::from_bits(bits),
        Float::Literal { negative, digits, scale } => {
            let Some(Object::String(digits)) = heap.get(digits) else { panic!("{digits}") };
            let (whole, fraction) = digits.split_at(digits.len() - scale);
            let value: f32 = format!("{whole}.{fraction}").parse().unwrap();
            if negative { -value } else { value }
        }
    }
}

fn from_float(value: f32) -> Value {
    Value::Float(Float::Bits(value.to_bits()))
}

/// What the host of these tests answers: floating point, and two functions,
/// number 0 that takes anything and gives nothing, number 1 that adds two
/// integers.
fn answer(heap: &Heap, request: Request, printed: &mut Vec<Value>) -> Value {
    match request {
        Request::Arithmetic { op, lhs, rhs } => {
            let (a, b) = (to_float(heap, lhs), to_float(heap, rhs));
            match op {
                OpCode::Add => from_float(a + b),
                OpCode::Sub => from_float(a - b),
                OpCode::Mul => from_float(a * b),
                OpCode::Div => from_float(a / b),
                OpCode::Equal => Value::Boolean(a == b),
                OpCode::Greater => Value::Boolean(a > b),
                OpCode::Less => Value::Boolean(a < b),
                other => panic!("{other:?}"),
            }
        }
        Request::Negate { value } => from_float(-to_float(heap, value)),
        Request::Native { func: 0, args } => {
            printed.push(args[0]);
            Value::Nothing
        }
        Request::Native { func: 1, args } => match (args[0], args[1]) {
            (Value::Integer(a), Value::Integer(b)) => Value::Integer(a + b),
            other => panic!("{other:?}"),
        },
        other => panic!("{other:?}"),
    }
}

fn finish(runtime: &mut Runtime, first: Outcome, printed: &mut Vec<Value>) -> Result<Value, Fault> {
    let mut outcome = first;
    loop {
        match outcome {
            Outcome::Finished(value) => return Ok(value),
            Outcome::Fault(fault) => return Err(fault),
            Outcome::Running => panic!("out of fuel"),
            Outcome::Host(request) => {
                let reply = answer(&runtime.vm.heap, request, printed);
                outcome = runtime.resume(reply, FUEL);
            }
        }
    }
}

fn run(code: &str) -> Value {
    let mut runtime = Runtime::new();
    let first = runtime.run(code, FUEL).unwrap();
    finish(&mut runtime, first, &mut Vec::new()).unwrap()
}

fn refusal(code: &str) -> CompileError {
    match Runtime::new().run(code, FUEL) {
        Err(RuntimeError::CompileError(error)) => error,
        other => panic!("{other:?}"),
    }
}

#[test]
fn test_runtime() {
    let mut runtime = Runtime::new();
    let sum = FunctionBuilder::new("sum".to_string()).arg::<i64>().arg::<i64>();
    let shown = sum.build_value::<i64>(&mut runtime.vm.heap, 1);
    println!("{:#?}", shown);
    FunctionBuilder::new("println".to_string()).any_arg().build::<()>(&mut runtime, 0);
    FunctionBuilder::new("sum".to_string()).arg::<i64>().arg::<i64>().build::<i64>(&mut runtime, 1);
    let mut printed = Vec::new();
    let first = runtime.run("println(sum(20, 40))", FUEL).unwrap();
    let value = finish(&mut runtime, first, &mut printed).unwrap();
    assert_eq!(printed, vec![Value::Integer(60)]);
    assert_eq!(value, Value::Nothing);
}

#[test]
fn constants_are_added() {
    assert_eq!(run("const a = 1; const b = 2; a + b"), Value::Integer(3));
}

#[test]
fn a_variable_is_assigned() {
    assert_eq!(run("let x = 10; x = x + 5; x"), Value::Integer(15));
}

#[test]
fn a_constant_is_not_assigned() {
    match refusal("const x = 1; x = 2;") {
        CompileError::ImmutableVariable { name, .. } => assert_eq!(name, "x"),
        other => panic!("{other:?}"),
    }
}

#[test]
fn an_integer_and_a_boolean_are_not_added() {
    match refusal("const x = 1; x + true") {
        CompileError::TypeExpected { expected, found, .. } => {
            assert_eq!(expected, Type::Integer);
            assert_eq!(found, Type::Boolean);
        }
        other => panic!("{other:?}"),
    }
}

#[test]
fn the_fields_of_a_record_are_read_by_position() {
    assert_eq!(run("record P(int, int); const p = new P(3, 4); p.0 + p.1"), Value::Integer(7));
}

#[test]
fn the_fields_of_a_struct_are_put_in_the_order_of_the_declaration() {
    assert_eq!(
        run("struct S { a: int, b: int } const s = new S{ b: 2, a: 1 }; s.a - s.b"),
        Value::Integer(-1)
    );
}

#[test]
fn a_function_is_called() {
    assert_eq!(run("func add(a: int, b: int): int { a + b } add(20, 40)"), Value::Integer(60));
}

#[test]
fn a_function_calls_itself() {
    assert_eq!(
        run("func down(n: int): int { if n < 1 { 0 } else { down(n - 1) } } down(5)"),
        Value::Integer(0)
    );
}

#[test]
fn a_conditional_gives_the_value_of_the_branch_taken() {
    assert_eq!(run("if true { 1 } else { 2 }"), Value::Integer(1));
    assert_eq!(run("if false { 1 } else { 2 }"), Value::Integer(2));
    assert_eq!(run("if false { 1 } else if true { 2 } else { 3 }"), Value::Integer(2));
}

#[test]
fn a_match_takes_the_arm_that_is_equal() {
    assert_eq!(run("match 2 { 1 => 10, 2 => 20, 3 => 30 }"), Value::Integer(20));
}

#[test]
fn a_match_with_a_name_takes_every_value() {
    assert_eq!(run("match 7 { x => x + 1, 7 => 0 }"), Value::Integer(8));
}

#[test]
fn a_declared_variable_is_read_back() {
    let mut runtime = Runtime::new();
    let first = runtime.run("let x = 1; x", FUEL).unwrap();
    let code: Vec<OpCode> = runtime.chunk.code.iter().map(|entry| entry.1).collect();
    assert_eq!(
        code[code.len() - 3..].to_vec(),
        vec![OpCode::GetLocal(0, 0), OpCode::Return, OpCode::Halt]
    );
    assert_eq!(finish(&mut runtime, first, &mut Vec::new()), Ok(Value::Integer(1)));
}

#[test]
fn an_expression_with_a_semicolon_gives_no_value() {
    let mut runtime = Runtime::new();
    let first = runtime.run("let x = 1; x;", FUEL).unwrap();
    let code: Vec<OpCode> = runtime.chunk.code.iter().map(|entry| entry.1).collect();
    assert_eq!(code[code.len() - 2..].to_vec(), vec![OpCode::GetLocal(0, 0), OpCode::Halt]);
    assert_eq!(finish(&mut runtime, first, &mut Vec::new()), Ok(Value::Nothing));
}

#[test]
fn the_empty_program_is_halt_alone() {
    let mut runtime = Runtime::new();
    let first = runtime.run("", FUEL).unwrap();
    assert_eq!(runtime.chunk.code, vec![(0, OpCode::Halt)]);
    assert!(runtime.chunk.constants.is_empty());
    assert_eq!(first, Outcome::Finished(Value::Nothing));
}

#[test]
fn operators_group_to_the_left_and_by_precedence() {
    assert_eq!(run("10 - 3 - 2"), Value::Integer(5));
    assert_eq!(run("1 + 2 * 3"), Value::Integer(7));
    assert_eq!(run("(1 + 2) * 3"), Value::Integer(9));
    assert_eq!(run("7 / 2"), Value::Integer(3));
    assert_eq!(run("2 * 3 == 6"), Value::Boolean(true));
    assert_eq!(run("1 < 2"), Value::Boolean(true));
    assert_eq!(run("1 > 2"), Value::Boolean(false));
    assert_eq!(run("1 != 2"), Value::Boolean(true));
}

#[test]
fn a_minus_that_touches_a_digit_is_no_operator() {
    assert_eq!(run("10 - 7"), Value::Integer(3));
    assert!(matches!(Runtime::new().run("10 -7", FUEL), Err(RuntimeError::ParseError(_))));
}

#[test]
fn floats_are_computed_by_the_host() {
    match run("1.5 + 2.25") {
        Value::Float(value) => assert_eq!(to_float(&Heap::new(), value), 3.75),
        other => panic!("{other:?}"),
    }
    assert_eq!(run("1.5 < 2.25"), Value::Boolean(true));
    assert_eq!(run("0.5 == 0.50"), Value::Boolean(true));
}

#[test]
fn a_float_is_kept_as_it_was_written() {
    let mut runtime = Runtime::new();
    let outcome = runtime.run("-12.50", FUEL).unwrap();
    let written = Float::Literal { negative: true, digits: 0, scale: 2 };
    assert_eq!(outcome, Outcome::Finished(Value::Float(written)));
    assert_eq!(runtime.vm.heap.objects, vec![Object::String("1250".to_string())]);
    assert_eq!(to_float(&runtime.vm.heap, written), -12.5);
}

#[test]
fn a_float_of_many_digits_is_computed_with() {
    let zeros = "0".repeat(40);
    assert_eq!(run(&format!("1.0{zeros} + 2.5 == 3.5")), Value::Boolean(true));
    assert_eq!(run(&format!("1{zeros}.5 > 9999999.5")), Value::Boolean(true));
    assert_eq!(run(&format!("0.{zeros}1 < 0.001")), Value::Boolean(true));
}

#[test]
fn a_property_is_assigned() {
    assert_eq!(
        run("record P(int, int); const p = new P(3, 4); p.0 = 10; p.0 + p.1"),
        Value::Integer(14)
    );
    assert_eq!(
        run("struct S { a: int, b: int } const s = new S{ a: 1, b: 2 }; const t = s; t.b = 5; s.b"),
        Value::Integer(5)
    );
}

#[test]
fn a_block_has_its_own_frame() {
    assert_eq!(run("let x = 1; { let y = x + 1; y }"), Value::Integer(2));
}

#[test]
fn variables_stay_between_programs() {
    let mut runtime = Runtime::new();
    let first = runtime.run("let x = 41;", FUEL).unwrap();
    assert_eq!(finish(&mut runtime, first, &mut Vec::new()), Ok(Value::Nothing));
    let second = runtime.run("x + 1", FUEL).unwrap();
    assert_eq!(finish(&mut runtime, second, &mut Vec::new()), Ok(Value::Integer(42)));
}

#[test]
fn division_by_zero_is_a_fault() {
    let mut runtime = Runtime::new();
    let first = runtime.run("1 / 0", FUEL).unwrap();
    assert_eq!(first, Outcome::Fault(Fault::DivisionByZero));
}

#[test]
fn overflow_is_a_fault() {
    let mut runtime = Runtime::new();
    let first = runtime.run("9223372036854775807 + 1", FUEL).unwrap();
    assert_eq!(first, Outcome::Fault(Fault::Overflow));
}

#[test]
fn a_run_without_fuel_is_still_running() {
    let mut runtime = Runtime::new();
    assert_eq!(runtime.run("1 + 2", 2).unwrap(), Outcome::Running);
}

#[test]
fn errors_of_each_kind() {
    assert!(matches!(refusal("y"), CompileError::VariableNotExist { .. }));
    assert!(matches!(
        refusal("struct S { a: int } new S{ b: 1 }"),
        CompileError::PropertyNotExist { .. }
    ));
    assert!(matches!(refusal("const x = 1; x = 2"), CompileError::ImmutableVariable { .. }));
    assert!(matches!(refusal("if 1 { 2 }"), CompileError::TypeExpected { .. }));
    assert!(matches!(refusal("true + 1"), CompileError::OneOfTypeExpected { .. }));
    assert!(matches!(
        refusal("func f(a: int): int { a } f(1, 2)"),
        CompileError::InvalidArgumentsCount { .. }
    ));
    assert!(matches!(
        refusal("record P(int); new P{ a: 1 }"),
        CompileError::InvalidInstanceArgs { .. }
    ));
    assert!(matches!(
        refusal("record P(int); const p = new P(1); p.3"),
        CompileError::PropertyNotExist { .. }
    ));
    assert!(matches!(refusal("const x = 1; x.a"), CompileError::OneOfTypeExpected { .. }));
}

#[test]
fn what_is_no_program_is_reported() {
    assert!(matches!(Runtime::new().run("let = 1;", FUEL), Err(RuntimeError::ParseError(_))));
    assert!(matches!(Runtime::new().run("1 2", FUEL), Err(RuntimeError::ParseError(_))));
    assert!(matches!(
        Runtime::new().run("while true { }", FUEL),
        Err(RuntimeError::LoopUnsupported)
    ));
    assert!(matches!(
        Runtime::new().run("99999999999999999999", FUEL),
        Err(RuntimeError::NumberTooLarge)
    ));
}
