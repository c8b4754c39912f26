use tapt::vm::{
    Chunk, Fault, Function, FunctionMetadata, Heap, NativeFunction, Object, OpCode, Outcome,
    Record, RecordInstance, Request, StackFrame, Struct, StructInstance, Value, VM,
};
use tapt::{Float, Type};

fn chunk(constants: &[Value], code: &[OpCode]) -> Chunk {
    let mut chunk = Chunk::new();
    for value in constants {
        chunk.push_const(*value);
    }
    for (line, op) in code.iter().enumerate() {
        chunk.push(line, *op);
    }
    chunk
}

fn run(constants: &[Value], code: &[OpCode]) -> Outcome {
    VM::new(Heap::new()).interpret(&chunk(constants, code), 1000)
}

#[test]
fn a_new_machine_rests_with_one_frame() {
    let vm = VM::new(Heap::new());
    assert!(!vm.is_running);
    assert_eq!(vm.position, 0);
    assert!(vm.stack.is_empty());
    assert_eq!(vm.frames.len(), 1);
    assert_eq!(vm.frame().stack_position, 0);
}

#[test]
fn arithmetic_takes_the_left_operand_from_below() {
    let values = [Value::Integer(7), Value::Integer(2)];
    let program = |op| [OpCode::LoadConst(0), OpCode::LoadConst(1), op, OpCode::Return, OpCode::Halt];
    assert_eq!(run(&values, &program(OpCode::Add)), Outcome::Finished(Value::Integer(9)));
    assert_eq!(run(&values, &program(OpCode::Sub)), Outcome::Finished(Value::Integer(5)));
    assert_eq!(run(&values, &program(OpCode::Mul)), Outcome::Finished(Value::Integer(14)));
    assert_eq!(run(&values, &program(OpCode::Div)), Outcome::Finished(Value::Integer(3)));
    assert_eq!(run(&values, &program(OpCode::Greater)), Outcome::Finished(Value::Boolean(true)));
    assert_eq!(run(&values, &program(OpCode::Less)), Outcome::Finished(Value::Boolean(false)));
    assert_eq!(run(&values, &program(OpCode::Equal)), Outcome::Finished(Value::Boolean(false)));
}

#[test]
fn division_rounds_towards_zero() {
    let program = [OpCode::LoadConst(0), OpCode::LoadConst(1), OpCode::Div, OpCode::Return, OpCode::Halt];
    assert_eq!(
        run(&[Value::Integer(-7), Value::Integer(2)], &program),
        Outcome::Finished(Value::Integer(-3))
    );
    assert_eq!(
        run(&[Value::Integer(7), Value::Integer(-2)], &program),
        Outcome::Finished(Value::Integer(-3))
    );
    assert_eq!(
        run(&[Value::Integer(i64::MIN), Value::Integer(-1)], &program),
        Outcome::Fault(Fault::Overflow)
    );
}

#[test]
fn negation_of_numbers_and_booleans() {
    let program = [OpCode::LoadConst(0), OpCode::Negate, OpCode::Return, OpCode::Halt];
    assert_eq!(run(&[Value::Integer(5)], &program), Outcome::Finished(Value::Integer(-5)));
    assert_eq!(run(&[Value::Boolean(true)], &program), Outcome::Finished(Value::Boolean(false)));
    assert_eq!(run(&[Value::Nothing], &program), Outcome::Fault(Fault::NotNegatable));
    assert_eq!(run(&[Value::Integer(i64::MIN)], &program), Outcome::Fault(Fault::Overflow));
    let float = Float::Literal { negative: false, digits: 0, scale: 1 };
    assert_eq!(
        run(&[Value::Float(float)], &program),
        Outcome::Host(Request::Negate { value: float })
    );
}

#[test]
fn values_of_different_kinds_are_not_equal_and_not_ordered() {
    let program = |op| [OpCode::LoadConst(0), OpCode::LoadConst(1), op, OpCode::Return, OpCode::Halt];
    let values = [Value::Integer(1), Value::Boolean(true)];
    for op in [OpCode::Equal, OpCode::Greater, OpCode::Less] {
        assert_eq!(run(&values, &program(op)), Outcome::Finished(Value::Boolean(false)));
    }
    assert_eq!(run(&values, &program(OpCode::Add)), Outcome::Fault(Fault::OperandMismatch));
    let nothing = [Value::Nothing, Value::Nothing];
    assert_eq!(run(&nothing, &program(OpCode::Equal)), Outcome::Finished(Value::Boolean(true)));
    let booleans = [Value::Boolean(false), Value::Boolean(true)];
    assert_eq!(run(&booleans, &program(OpCode::Less)), Outcome::Finished(Value::Boolean(true)));
    assert_eq!(run(&booleans, &program(OpCode::Greater)), Outcome::Finished(Value::Boolean(false)));
}

#[test]
fn two_floats_go_to_the_host() {
    let a = Float::Bits(1.5f32.to_bits());
    let b = Float::Literal { negative: true, digits: 0, scale: 2 };
    let code = [OpCode::LoadConst(0), OpCode::LoadConst(1), OpCode::Mul, OpCode::Return, OpCode::Halt];
    let program = chunk(&[Value::Float(a), Value::Float(b)], &code);
    let mut vm = VM::new(Heap::new());
    assert_eq!(
        vm.interpret(&program, 100),
        Outcome::Host(Request::Arithmetic { op: OpCode::Mul, lhs: a, rhs: b })
    );
    assert!(vm.stack.is_empty());
    let product = Value::Float(Float::Bits((-0.375f32).to_bits()));
    assert_eq!(vm.resume(&program, product, 100), Outcome::Finished(product));
}

#[test]
fn the_frame_gives_the_stack_its_height_back() {
    let code = [
        OpCode::LoadConst(0),
        OpCode::PushFrame,
        OpCode::LoadConst(1),
        OpCode::LoadConst(2),
        OpCode::Return,
        OpCode::PopFrame,
        OpCode::Halt,
    ];
    let program = chunk(&[Value::Integer(1), Value::Integer(2), Value::Integer(3)], &code);
    let mut vm = VM::new(Heap::new());
    for _ in 0..2 {
        assert_eq!(vm.step(&program), Outcome::Running);
    }
    assert_eq!(vm.frames.len(), 2);
    assert_eq!(vm.frame().stack_position, 1);
    for _ in 0..4 {
        assert_eq!(vm.step(&program), Outcome::Running);
    }
    assert_eq!(vm.frames.len(), 1);
    assert_eq!(vm.stack, vec![Value::Integer(1), Value::Integer(3)]);
}

#[test]
fn a_frame_without_a_value_leaves_the_height_as_it_was() {
    let code = [
        OpCode::LoadConst(0),
        OpCode::PushFrame,
        OpCode::LoadConst(0),
        OpCode::LoadConst(0),
        OpCode::PopFrame,
        OpCode::Halt,
    ];
    let program = chunk(&[Value::Integer(1)], &code);
    let mut vm = VM::new(Heap::new());
    assert_eq!(vm.interpret(&program, 100), Outcome::Finished(Value::Nothing));
    assert_eq!(vm.stack, vec![Value::Integer(1)]);
}

#[test]
fn a_slot_that_is_set_exists() {
    let code = [OpCode::LoadConst(0), OpCode::SetLocal(None, 5), OpCode::Halt];
    let program = chunk(&[Value::Integer(9)], &code);
    let mut vm = VM::new(Heap::new());
    assert_eq!(vm.interpret(&program, 100), Outcome::Finished(Value::Nothing));
    assert_eq!(vm.frame().slots.len(), 6);
    assert_eq!(vm.frame().get_slot(5), Value::Integer(9));
    assert_eq!(vm.frame().get_slot(0), Value::Nothing);
    let mut frame = StackFrame::new(3);
    frame.set_slot(2, Value::Boolean(true));
    assert_eq!(frame.slots, vec![Value::Nothing, Value::Nothing, Value::Boolean(true)]);
    frame.set_slot(0, Value::Integer(1));
    assert_eq!(frame.slots.len(), 3);
    frame.reset();
    assert!(frame.slots.is_empty());
}

#[test]
fn locals_are_read_from_the_frames_below() {
    let code = [
        OpCode::LoadConst(0),
        OpCode::SetLocal(None, 0),
        OpCode::PushFrame,
        OpCode::LoadConst(1),
        OpCode::SetLocal(None, 0),
        OpCode::GetLocal(-1, 0),
        OpCode::GetLocal(0, 0),
        OpCode::Sub,
        OpCode::SetLocal(Some(0), 1),
        OpCode::PopFrame,
        OpCode::GetLocal(0, 1),
        OpCode::Return,
        OpCode::Halt,
    ];
    assert_eq!(
        run(&[Value::Integer(50), Value::Integer(8)], &code),
        Outcome::Finished(Value::Integer(42))
    );
}

#[test]
fn a_jump_counts_from_the_jump_itself() {
    let code = [
        OpCode::Jump(1),
        OpCode::LoadConst(0),
        OpCode::LoadConst(1),
        OpCode::Return,
        OpCode::Halt,
    ];
    assert_eq!(
        run(&[Value::Integer(1), Value::Integer(2)], &code),
        Outcome::Finished(Value::Integer(2))
    );
    assert_eq!(run(&[Value::Nothing], &[OpCode::LoadConst(0), OpCode::Jump(-1)]), Outcome::Running);
    assert_eq!(run(&[], &[OpCode::Jump(-1)]), Outcome::Fault(Fault::BadJump));
    assert_eq!(run(&[], &[OpCode::Jump(5)]), Outcome::Fault(Fault::OutOfCode));
}

#[test]
fn only_false_leaves_the_stack_and_jumps() {
    let code = [
        OpCode::LoadConst(0),
        OpCode::JumpIfFalse(1),
        OpCode::LoadConst(1),
        OpCode::Return,
        OpCode::Halt,
    ];
    assert_eq!(
        run(&[Value::Boolean(true), Value::Integer(7)], &code),
        Outcome::Finished(Value::Integer(7))
    );
    assert_eq!(
        run(&[Value::Boolean(false), Value::Integer(7)], &code),
        Outcome::Finished(Value::Nothing)
    );
    assert_eq!(
        run(&[Value::Integer(0), Value::Integer(7)], &code),
        Outcome::Finished(Value::Integer(7))
    );
    assert_eq!(run(&[], &[OpCode::JumpIfFalse(0)]), Outcome::Fault(Fault::StackUnderflow));
}

fn meta(name: &str) -> FunctionMetadata {
    FunctionMetadata { name: name.to_string(), args: vec![Type::Integer], output: Type::Integer }
}

#[test]
fn a_call_runs_the_function_in_a_frame_of_its_own() {
    let mut heap = Heap::new();
    let body = chunk(
        &[Value::Integer(1)],
        &[OpCode::GetLocal(0, 0), OpCode::LoadConst(0), OpCode::Add, OpCode::Return, OpCode::Halt],
    );
    let function = Value::object(&mut heap, Object::Function(Function { meta: meta("next"), chunk: body }));
    let program = chunk(
        &[function, Value::Integer(41)],
        &[OpCode::LoadConst(0), OpCode::LoadConst(1), OpCode::Call(1), OpCode::Return, OpCode::Halt],
    );
    let mut vm = VM::new(heap);
    for _ in 0..3 {
        assert_eq!(vm.step(&program), Outcome::Running);
    }
    assert_eq!(vm.frames.len(), 2);
    assert_eq!(vm.frame().slots, vec![Value::Integer(41), function]);
    assert_eq!(vm.calls.len(), 1);
    assert_eq!(vm.position, 0);
    assert_eq!(vm.run(&program, 100), Outcome::Finished(Value::Integer(42)));
    assert_eq!(vm.frames.len(), 1);
    assert!(vm.calls.is_empty());
}

#[test]
fn a_function_of_the_host_is_asked_for() {
    let mut heap = Heap::new();
    let native = Value::object(
        &mut heap,
        Object::NativeFunction(NativeFunction { meta: meta("host"), func: 17 }),
    );
    let program = chunk(
        &[native, Value::Integer(5)],
        &[OpCode::LoadConst(0), OpCode::LoadConst(1), OpCode::Call(1), OpCode::Return, OpCode::Halt],
    );
    let mut vm = VM::new(heap);
    assert_eq!(
        vm.interpret(&program, 100),
        Outcome::Host(Request::Native { func: 17, args: vec![Value::Integer(5)] })
    );
    assert!(vm.stack.is_empty());
    assert_eq!(vm.resume(&program, Value::Integer(6), 100), Outcome::Finished(Value::Integer(6)));
}

#[test]
fn what_is_no_function_is_not_called() {
    assert_eq!(
        run(&[Value::Integer(1)], &[OpCode::LoadConst(0), OpCode::Call(0)]),
        Outcome::Fault(Fault::NotCallable)
    );
    assert_eq!(run(&[], &[OpCode::Call(0)]), Outcome::Fault(Fault::StackUnderflow));
}

#[test]
fn instances_are_made_read_and_changed() {
    let mut heap = Heap::new();
    let record = Value::object(
        &mut heap,
        Object::Record(Record { name: "P".to_string(), fields: vec![Type::Integer, Type::Integer] }),
    );
    let program = chunk(
        &[Value::Integer(3), Value::Integer(4), record, Value::Integer(10)],
        &[
            OpCode::LoadConst(0),
            OpCode::LoadConst(1),
            OpCode::LoadConst(2),
            OpCode::CreateInstance,
            OpCode::SetLocal(None, 0),
            OpCode::GetLocal(0, 0),
            OpCode::LoadConst(3),
            OpCode::SetProperty(1),
            OpCode::GetLocal(0, 0),
            OpCode::GetProperty(1),
            OpCode::GetLocal(0, 0),
            OpCode::GetProperty(0),
            OpCode::Sub,
            OpCode::Return,
            OpCode::Halt,
        ],
    );
    let mut vm = VM::new(heap);
    assert_eq!(vm.interpret(&program, 100), Outcome::Finished(Value::Integer(7)));
    assert_eq!(
        vm.heap.objects[1],
        Object::RecordInstance(RecordInstance {
            name: "P".to_string(),
            fields: vec![Value::Integer(3), Value::Integer(10)],
        })
    );
}

#[test]
fn a_struct_instance_takes_the_names_of_the_declaration() {
    let mut heap = Heap::new();
    let structure = Value::object(
        &mut heap,
        Object::Struct(Struct {
            name: "S".to_string(),
            fields: vec![("a".to_string(), Type::Integer), ("b".to_string(), Type::Boolean)],
        }),
    );
    let program = chunk(
        &[Value::Integer(1), Value::Boolean(true), structure],
        &[
            OpCode::LoadConst(0),
            OpCode::LoadConst(1),
            OpCode::LoadConst(2),
            OpCode::CreateInstance,
            OpCode::Return,
            OpCode::Halt,
        ],
    );
    let mut vm = VM::new(heap);
    assert_eq!(vm.interpret(&program, 100), Outcome::Finished(Value::Object(1)));
    assert_eq!(
        vm.heap.objects[1],
        Object::StructInstance(StructInstance {
            name: "S".to_string(),
            fields: vec![
                ("a".to_string(), Value::Integer(1)),
                ("b".to_string(), Value::Boolean(true)),
            ],
        })
    );
}

#[test]
fn instances_are_ordered_by_their_names() {
    let mut heap = Heap::new();
    let a = Value::object(
        &mut heap,
        Object::RecordInstance(RecordInstance { name: "A".to_string(), fields: vec![] }),
    );
    let b = Value::object(
        &mut heap,
        Object::RecordInstance(RecordInstance { name: "B".to_string(), fields: vec![Value::Nothing] }),
    );
    let text = Value::object(&mut heap, Object::String("A".to_string()));
    let program = |x, y, op| {
        chunk(&[x, y], &[OpCode::LoadConst(0), OpCode::LoadConst(1), op, OpCode::Return, OpCode::Halt])
    };
    let mut vm = VM::new(heap);
    assert_eq!(vm.interpret(&program(a, b, OpCode::Less), 9), Outcome::Finished(Value::Boolean(true)));
    assert_eq!(vm.interpret(&program(a, b, OpCode::Greater), 9), Outcome::Finished(Value::Boolean(false)));
    assert_eq!(vm.interpret(&program(b, a, OpCode::Greater), 9), Outcome::Finished(Value::Boolean(true)));
    assert_eq!(vm.interpret(&program(a, a, OpCode::Less), 9), Outcome::Finished(Value::Boolean(false)));
    assert_eq!(vm.interpret(&program(a, a, OpCode::Equal), 9), Outcome::Finished(Value::Boolean(true)));
    assert_eq!(vm.interpret(&program(a, b, OpCode::Equal), 9), Outcome::Finished(Value::Boolean(false)));
    assert_eq!(vm.interpret(&program(text, b, OpCode::Less), 9), Outcome::Finished(Value::Boolean(false)));
    assert_eq!(text.as_string(&vm.heap), Some("A".to_string()));
    assert_eq!(a.as_string(&vm.heap), None);
}

#[test]
fn strings_are_ordered_by_their_text() {
    let mut heap = Heap::new();
    let apple = Value::object(&mut heap, Object::String("apple".to_string()));
    let apples = Value::object(&mut heap, Object::String("apples".to_string()));
    let pear = Value::object(&mut heap, Object::String("pear".to_string()));
    let again = Value::object(&mut heap, Object::String("pear".to_string()));
    let program = |x, y, op| {
        chunk(&[x, y], &[OpCode::LoadConst(0), OpCode::LoadConst(1), op, OpCode::Return, OpCode::Halt])
    };
    let mut vm = VM::new(heap);
    for (x, y, op, expected) in [
        (apple, pear, OpCode::Less, true),
        (apple, pear, OpCode::Greater, false),
        (pear, apple, OpCode::Greater, true),
        (apple, apples, OpCode::Less, true),
        (apples, apple, OpCode::Less, false),
        (pear, again, OpCode::Less, false),
        (pear, again, OpCode::Greater, false),
        (pear, again, OpCode::Equal, false),
        (pear, pear, OpCode::Equal, true),
    ] {
        assert_eq!(
            vm.interpret(&program(x, y, op), 9),
            Outcome::Finished(Value::Boolean(expected)),
            "{x:?} {op:?} {y:?}"
        );
    }
}

#[test]
fn faults_of_each_kind() {
    assert_eq!(run(&[], &[]), Outcome::Fault(Fault::OutOfCode));
    assert_eq!(run(&[], &[OpCode::Pop]), Outcome::Fault(Fault::StackUnderflow));
    assert_eq!(run(&[], &[OpCode::Copy]), Outcome::Fault(Fault::StackUnderflow));
    assert_eq!(run(&[], &[OpCode::Add]), Outcome::Fault(Fault::StackUnderflow));
    assert_eq!(run(&[], &[OpCode::LoadConst(0)]), Outcome::Fault(Fault::NoConstant));
    assert_eq!(run(&[], &[OpCode::PopFrame, OpCode::PopFrame]), Outcome::Fault(Fault::NoFrame));
    assert_eq!(run(&[], &[OpCode::PopFrame, OpCode::Halt]), Outcome::Fault(Fault::NoFrame));
    assert_eq!(run(&[], &[OpCode::GetLocal(-1, 0)]), Outcome::Fault(Fault::NoFrame));
    assert_eq!(run(&[], &[OpCode::GetLocal(1, 0)]), Outcome::Fault(Fault::NoFrame));
    assert_eq!(run(&[], &[OpCode::GetLocal(0, 0)]), Outcome::Fault(Fault::NoSlot));
    let one = [Value::Integer(1)];
    assert_eq!(
        run(&one, &[OpCode::LoadConst(0), OpCode::SetLocal(Some(1), 0)]),
        Outcome::Fault(Fault::NoFrame)
    );
    assert_eq!(
        run(&one, &[OpCode::LoadConst(0), OpCode::SetLocal(None, usize::MAX)]),
        Outcome::Fault(Fault::NoSlot)
    );
    assert_eq!(
        run(&one, &[OpCode::LoadConst(0), OpCode::CreateInstance]),
        Outcome::Fault(Fault::NotDescriptor)
    );
    assert_eq!(
        run(&one, &[OpCode::LoadConst(0), OpCode::GetProperty(0)]),
        Outcome::Fault(Fault::NotInstance)
    );
    assert_eq!(
        run(&one, &[OpCode::LoadConst(0), OpCode::LoadConst(0), OpCode::SetProperty(0)]),
        Outcome::Fault(Fault::NotInstance)
    );
    let mut heap = Heap::new();
    let instance = Value::object(
        &mut heap,
        Object::RecordInstance(RecordInstance { name: "P".to_string(), fields: vec![] }),
    );
    let program = chunk(&[instance], &[OpCode::LoadConst(0), OpCode::GetProperty(0)]);
    assert_eq!(VM::new(heap).interpret(&program, 10), Outcome::Fault(Fault::NoProperty));
}

#[test]
fn a_run_goes_on_where_it_stopped() {
    let code = [OpCode::LoadConst(0), OpCode::LoadConst(0), OpCode::Add, OpCode::Return, OpCode::Halt];
    let program = chunk(&[Value::Integer(21)], &code);
    let mut vm = VM::new(Heap::new());
    assert_eq!(vm.interpret(&program, 3), Outcome::Running);
    assert_eq!(vm.position, 3);
    assert_eq!(vm.peek(0), Value::Integer(42));
    assert_eq!(vm.run(&program, 0), Outcome::Running);
    assert_eq!(vm.run(&program, 2), Outcome::Finished(Value::Integer(42)));
    assert!(!vm.is_running);
    vm.reset();
    assert_eq!(vm.position, 0);
}

#[test]
fn the_stack_is_pushed_and_popped() {
    let mut vm = VM::new(Heap::new());
    vm.push(Value::Integer(1));
    vm.push(Value::Integer(2));
    assert_eq!(vm.peek(1), Value::Integer(1));
    assert_eq!(vm.pop(), Value::Integer(2));
    vm.push_frame();
    vm.push(Value::Integer(3));
    assert_eq!(vm.frame().stack_position, 1);
    assert_eq!(vm.pop_frame(), None);
    assert_eq!(vm.stack, vec![Value::Integer(1)]);
}

#[test]
fn the_listing_counts_the_widths() {
    let code = [OpCode::LoadConst(0), OpCode::Pop, OpCode::GetLocal(0, 0), OpCode::Halt];
    let listing = chunk(&[Value::Nothing], &code).disassemble();
    let offsets: Vec<usize> = listing.iter().map(|entry| entry.offset).collect();
    assert_eq!(offsets, vec![2, 3, 5, 6]);
    assert_eq!(listing[3].value, OpCode::Halt);
    assert_eq!(listing[2].line, 2);
    assert_eq!(OpCode::SetLocal(None, 1).size(), 2);
    assert_eq!(OpCode::Halt.size(), 1);
}

#[test]
fn a_chunk_keeps_what_is_pushed() {
    let mut chunk = Chunk::new();
    assert!(chunk.is_empty());
    chunk.push(3, OpCode::Pop);
    chunk.push_const(Value::Integer(5));
    assert_eq!(chunk.len(), 1);
    assert_eq!(chunk.constants(), 1);
    assert_eq!(*chunk.get_const(0), Value::Integer(5));
    assert_eq!(chunk.get_const_cloned(0), Value::Integer(5));
    assert_eq!(chunk.get(0), Some((3, OpCode::Pop)));
    assert_eq!(chunk.get(1), None);
    assert_eq!(chunk.duplicate(), chunk);
}

#[test]
fn the_top_frame_is_changed_in_place() {
    let mut vm = VM::new(Heap::new());
    vm.frame_mut().set_slot(1, Value::Integer(4));
    vm.frame_mut().returned = Some(Value::Boolean(true));
    assert_eq!(vm.frame().slots, vec![Value::Nothing, Value::Integer(4)]);
    assert_eq!(vm.frame().returned, Some(Value::Boolean(true)));
}
