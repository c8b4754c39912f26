//! The state of the stack machine and what one instruction does to it, as a
//! function on mathematical values.

use crate::text::text_before;
use crate::vm::chunk::ChunkView;
use crate::vm::op::OpCode;
use crate::vm::value::{Float, ObjectView, Value};
use vstd::prelude::*;

verus! {

/// Why the machine cannot go on. None of these can be handled by the program
/// that runs: the run is over.
#[derive(Debug, Clone, Copy, PartialEq, Eq, Structural)]
pub enum Fault {
    /// The instruction pointer is outside the code.
    OutOfCode,
    /// An instruction needs more values than the stack holds.
    StackUnderflow,
    /// A constant is loaded that the pool does not hold.
    NoConstant,
    /// A frame is needed where there is none.
    NoFrame,
    /// A local is read that its frame does not hold, or a slot cannot exist.
    NoSlot,
    /// Arithmetic on operands that are not two integers or two floats.
    OperandMismatch,
    /// Negation of what is no number and no boolean.
    NotNegatable,
    /// The result of integer arithmetic does not fit.
    Overflow,
    DivisionByZero,
    /// A call of what is no function.
    NotCallable,
    /// An instance is made from what is no struct or record.
    NotDescriptor,
    /// A property is read or set on what is no instance.
    NotInstance,
    /// An instance has no property at that position.
    NoProperty,
    /// A jump leads to where no instruction pointer can point.
    BadJump,
}

/// A call that has not returned: the function that runs, as its place in the
/// heap, and the instruction of the caller that made the call.
#[derive(Debug, Clone, Copy, PartialEq, Eq, Structural)]
pub struct Call {
    pub function: usize,
    pub position: usize,
}

/// A frame as a mathematical value.
#[verifier::ext_equal]
pub ghost struct FrameView {
    pub position: usize,
    pub stack_position: usize,
    pub returned: Option<Value>,
    pub slots: Seq<Value>,
}

/// What the machine asks of the host. The machine is paused at the instruction
/// that asked, its operands taken from the stack.
pub ghost enum RequestView {
    /// Call host function `func` with `args`.
    Native { func: usize, args: Seq<Value> },
    /// Apply the arithmetic or the comparison `op` to two floats.
    Arithmetic { op: OpCode, lhs: Float, rhs: Float },
    /// Negate a float.
    Negate { value: Float },
}

/// How a step or a run ended.
pub ghost enum OutcomeView {
    /// There are more instructions to run.
    Running,
    /// The program has come to its end, with this value.
    Finished(Value),
    Host(RequestView),
    Fault(Fault),
}

/// The whole state of the machine.
#[verifier::ext_equal]
pub ghost struct Machine {
    pub is_running: bool,
    pub position: usize,
    pub stack: Seq<Value>,
    pub frames: Seq<FrameView>,
    pub heap: Seq<ObjectView>,
    pub calls: Seq<Call>,
}

/// The quotient of two integers, rounded towards zero.
pub open spec fn truncated_quotient(a: int, b: int) -> int
    recommends
        b != 0,
{
    if a >= 0 && b > 0 {
        a / b
    } else if a < 0 && b < 0 {
        (-a) / (-b)
    } else if a < 0 {
        -((-a) / b)
    } else {
        -(a / (-b))
    }
}

/// The result of integer arithmetic, or the fault that it ends in.
pub open spec fn integer_arithmetic(op: OpCode, a: i64, b: i64) -> Result<i64, Fault> {
    let exact: int = match op {
        OpCode::Add => a + b,
        OpCode::Sub => a - b,
        OpCode::Mul => a * b,
        _ => if b == 0 {
            0
        } else {
            truncated_quotient(a as int, b as int)
        },
    };
    if op == OpCode::Div && b == 0 {
        Err(Fault::DivisionByZero)
    } else if exact < i64::MIN || exact > i64::MAX {
        Err(Fault::Overflow)
    } else {
        Ok(exact as i64)
    }
}

/// The name of the instance at `handle`, with `true` for a struct instance and
/// `false` for a record instance.
pub open spec fn instance_name(heap: Seq<ObjectView>, handle: usize) -> Option<(bool, Seq<char>)> {
    if handle < heap.len() {
        match heap[handle as int] {
            ObjectView::StructInstance { name, .. } => Some((true, name)),
            ObjectView::RecordInstance { name, .. } => Some((false, name)),
            _ => None,
        }
    } else {
        None
    }
}

/// Whether object `a` is ordered before object `b`: both are strings and the
/// text of `a` comes first, or both are instances of the same kind and the name
/// of `a` comes first. No other objects are ordered.
pub open spec fn object_before(heap: Seq<ObjectView>, a: usize, b: usize) -> bool {
    match (instance_name(heap, a), instance_name(heap, b)) {
        (Some(first), Some(second)) => first.0 == second.0 && text_before(first.1, second.1),
        _ => match (Value::Object(a).spec_as_string(heap), Value::Object(b).spec_as_string(heap)) {
            (Some(first), Some(second)) => text_before(first, second),
            _ => false,
        },
    }
}

/// The result of the comparison `op` on two values that are not both floats.
/// Values of different kinds are not equal and not ordered.
pub open spec fn comparison(heap: Seq<ObjectView>, op: OpCode, a: Value, b: Value) -> bool {
    match op {
        OpCode::Equal => a == b,
        OpCode::Greater => match (a, b) {
            (Value::Integer(x), Value::Integer(y)) => x > y,
            (Value::Boolean(x), Value::Boolean(y)) => x && !y,
            (Value::Object(x), Value::Object(y)) => object_before(heap, y, x),
            _ => false,
        },
        _ => match (a, b) {
            (Value::Integer(x), Value::Integer(y)) => x < y,
            (Value::Boolean(x), Value::Boolean(y)) => !x && y,
            (Value::Object(x), Value::Object(y)) => object_before(heap, x, y),
            _ => false,
        },
    }
}

impl FrameView {
    pub open spec fn fresh(stack_position: usize) -> FrameView {
        FrameView { position: 0, stack_position, returned: None, slots: Seq::empty() }
    }

    /// The frame with `value` in slot `slot`, the slots before it that did not
    /// exist filled with nothing.
    pub open spec fn with_slot(self, slot: int, value: Value) -> FrameView {
        let padded = if self.slots.len() <= slot {
            self.slots + Seq::new((slot + 1 - self.slots.len()) as nat, |i: int| Value::Nothing)
        } else {
            self.slots
        };
        FrameView { slots: padded.update(slot, value), ..self }
    }
}

impl Machine {
    pub open spec fn fault(self, fault: Fault) -> (Machine, OutcomeView) {
        (self, OutcomeView::Fault(fault))
    }

    /// On to the next instruction.
    pub open spec fn proceed(self) -> (Machine, OutcomeView) {
        if self.position < usize::MAX {
            (Machine { position: (self.position + 1) as usize, ..self }, OutcomeView::Running)
        } else {
            self.fault(Fault::BadJump)
        }
    }

    pub open spec fn push(self, value: Value) -> Machine {
        Machine { stack: self.stack.push(value), ..self }
    }

    /// The stack without its top `count` values.
    pub open spec fn drop(self, count: int) -> Machine {
        Machine { stack: self.stack.subrange(0, self.stack.len() - count), ..self }
    }

    /// The value `distance` below the top of the stack.
    pub open spec fn peek(self, distance: int) -> Value {
        self.stack[self.stack.len() - 1 - distance]
    }

    /// The code that runs: that of the innermost call, or `chunk` where no
    /// call is open.
    pub open spec fn code(self, chunk: ChunkView) -> Option<ChunkView> {
        if self.calls.len() == 0 {
            Some(chunk)
        } else {
            let function = self.calls.last().function;
            if function < self.heap.len() {
                match self.heap[function as int] {
                    ObjectView::Function { chunk: body, .. } => Some(body),
                    _ => None,
                }
            } else {
                None
            }
        }
    }

    /// The instruction that the instruction pointer points to.
    pub open spec fn fetch(self, chunk: ChunkView) -> Result<OpCode, Fault> {
        match self.code(chunk) {
            None => Err(Fault::NotCallable),
            Some(code) => if self.position < code.code.len() {
                Ok(code.code[self.position as int].1)
            } else {
                Err(Fault::OutOfCode)
            },
        }
    }

    pub open spec fn load_const(self, chunk: ChunkView, index: usize) -> (Machine, OutcomeView) {
        match self.code(chunk) {
            Some(code) if index < code.constants.len() => self.push(
                code.constants[index as int],
            ).proceed(),
            _ => self.fault(Fault::NoConstant),
        }
    }

    pub open spec fn copy_top(self) -> (Machine, OutcomeView) {
        if self.stack.len() == 0 {
            self.fault(Fault::StackUnderflow)
        } else {
            self.push(self.peek(0)).proceed()
        }
    }

    pub open spec fn pop_top(self) -> (Machine, OutcomeView) {
        if self.stack.len() == 0 {
            self.fault(Fault::StackUnderflow)
        } else {
            self.drop(1).proceed()
        }
    }

    /// A new frame on top, which remembers the height of the stack.
    pub open spec fn push_frame(self) -> Machine {
        if self.stack.len() <= usize::MAX {
            Machine { frames: self.frames.push(FrameView::fresh(self.stack.len() as usize)), ..self }
        } else {
            self
        }
    }

    /// Without the top frame, the stack cut back to the height that the frame
    /// remembers, and on it the value that the frame returned, if any.
    pub open spec fn pop_frame(self) -> Machine {
        let frame = self.frames.last();
        let stack = if frame.stack_position <= self.stack.len() {
            self.stack.subrange(0, frame.stack_position as int)
        } else {
            self.stack
        };
        Machine {
            frames: self.frames.drop_last(),
            stack: match frame.returned {
                Some(value) => stack.push(value),
                None => stack,
            },
            ..self
        }
    }

    pub open spec fn pop_frame_step(self) -> (Machine, OutcomeView) {
        if self.frames.len() == 0 {
            self.fault(Fault::NoFrame)
        } else {
            self.pop_frame().proceed()
        }
    }

    pub open spec fn get_local(self, frame: isize, slot: usize) -> (Machine, OutcomeView) {
        let index = self.frames.len() - 1 + frame;
        if !(0 <= index < self.frames.len()) {
            self.fault(Fault::NoFrame)
        } else if slot >= self.frames[index].slots.len() {
            self.fault(Fault::NoSlot)
        } else {
            self.push(self.frames[index].slots[slot as int]).proceed()
        }
    }

    pub open spec fn set_local(self, frame: Option<usize>, slot: usize) -> (Machine, OutcomeView) {
        let index: int = match frame {
            Some(absolute) => absolute as int,
            None => self.frames.len() - 1,
        };
        if self.stack.len() == 0 {
            self.fault(Fault::StackUnderflow)
        } else if !(0 <= index < self.frames.len()) {
            self.fault(Fault::NoFrame)
        } else if slot == usize::MAX {
            self.fault(Fault::NoSlot)
        } else {
            Machine {
                frames: self.frames.update(
                    index,
                    self.frames[index].with_slot(slot as int, self.peek(0)),
                ),
                ..self.drop(1)
            }.proceed()
        }
    }

    /// Comparison and arithmetic: the right operand is on top, the left one
    /// below it. Two floats go to the host.
    pub open spec fn binary(self, op: OpCode) -> (Machine, OutcomeView) {
        if self.stack.len() < 2 {
            self.fault(Fault::StackUnderflow)
        } else {
            let b = self.peek(0);
            let a = self.peek(1);
            let rest = self.drop(2);
            match (a, b) {
                (Value::Float(lhs), Value::Float(rhs)) => (
                    rest,
                    OutcomeView::Host(RequestView::Arithmetic { op, lhs, rhs }),
                ),
                _ => if op == OpCode::Equal || op == OpCode::Greater || op == OpCode::Less {
                    rest.push(Value::Boolean(comparison(self.heap, op, a, b))).proceed()
                } else {
                    match (a, b) {
                        (Value::Integer(x), Value::Integer(y)) => match integer_arithmetic(
                            op,
                            x,
                            y,
                        ) {
                            Ok(result) => rest.push(Value::Integer(result)).proceed(),
                            Err(fault) => self.fault(fault),
                        },
                        _ => self.fault(Fault::OperandMismatch),
                    }
                },
            }
        }
    }

    pub open spec fn negate(self) -> (Machine, OutcomeView) {
        if self.stack.len() == 0 {
            self.fault(Fault::StackUnderflow)
        } else {
            let rest = self.drop(1);
            match self.peek(0) {
                Value::Integer(value) => if value == i64::MIN {
                    self.fault(Fault::Overflow)
                } else {
                    rest.push(Value::Integer((-value) as i64)).proceed()
                },
                Value::Float(value) => (rest, OutcomeView::Host(RequestView::Negate { value })),
                Value::Boolean(value) => rest.push(Value::Boolean(!value)).proceed(),
                _ => self.fault(Fault::NotNegatable),
            }
        }
    }

    /// What lies above the height that the top frame remembers is at most one
    /// value: the top of the stack moves into the frame as what it returns.
    pub open spec fn do_return(self) -> (Machine, OutcomeView) {
        if self.frames.len() == 0 {
            self.fault(Fault::NoFrame)
        } else if self.stack.len() > self.frames.last().stack_position {
            Machine {
                frames: self.frames.update(
                    self.frames.len() - 1,
                    FrameView { returned: Some(self.peek(0)), ..self.frames.last() },
                ),
                ..self.drop(1)
            }.proceed()
        } else {
            self.proceed()
        }
    }

    /// The end of the code that runs. In a call, the frame of the call goes and
    /// what it returned is pushed for the caller, who goes on behind the call.
    /// Outside any call the program is over, and its value is what the top
    /// frame returned, which the frame then no longer holds.
    pub open spec fn halt(self) -> (Machine, OutcomeView) {
        if self.frames.len() == 0 {
            self.fault(Fault::NoFrame)
        } else if self.calls.len() > 0 {
            let frame = self.frames.last();
            Machine {
                position: self.calls.last().position,
                calls: self.calls.drop_last(),
                frames: self.frames.drop_last(),
                stack: match frame.returned {
                    Some(value) => self.stack.push(value),
                    None => self.stack,
                },
                ..self
            }.proceed()
        } else {
            let value = match self.frames.last().returned {
                Some(value) => value,
                None => Value::Nothing,
            };
            let stopped = Machine {
                is_running: false,
                frames: self.frames.update(
                    self.frames.len() - 1,
                    FrameView { returned: None, ..self.frames.last() },
                ),
                ..self
            };
            match stopped.proceed() {
                (machine, OutcomeView::Running) => (machine, OutcomeView::Finished(value)),
                other => other,
            }
        }
    }

    /// A jump by `offset` from the jump itself; the machine then goes on with
    /// the instruction behind the one it reached.
    pub open spec fn jump(self, offset: int) -> (Machine, OutcomeView) {
        let target = self.position + offset;
        if 0 <= target < usize::MAX {
            (Machine { position: (target + 1) as usize, ..self }, OutcomeView::Running)
        } else {
            self.fault(Fault::BadJump)
        }
    }

    /// Where `false` is on top it leaves the stack and the machine jumps; any
    /// other value stays where it is and the machine goes on.
    pub open spec fn jump_if_false(self, offset: usize) -> (Machine, OutcomeView) {
        if self.stack.len() == 0 {
            self.fault(Fault::StackUnderflow)
        } else if self.peek(0) == Value::Boolean(false) {
            self.drop(1).jump(offset as int)
        } else {
            self.proceed()
        }
    }

    /// A call with `count` arguments on top of what is called. A function of the
    /// language gets a frame whose slots are the arguments and then the function
    /// itself, and runs from its first instruction. A function of the host is
    /// asked for.
    pub open spec fn call(self, count: usize) -> (Machine, OutcomeView) {
        if self.stack.len() <= count {
            self.fault(Fault::StackUnderflow)
        } else {
            let callee = self.peek(count as int);
            let args = self.stack.subrange(self.stack.len() - count, self.stack.len() as int);
            let rest = self.drop(count + 1);
            match callee {
                Value::Object(handle) if handle < self.heap.len() => match self.heap[handle as int] {
                    ObjectView::Function { .. } => (
                        Machine {
                            position: 0,
                            frames: rest.frames.push(
                                FrameView {
                                    slots: args.push(callee),
                                    ..FrameView::fresh(rest.stack.len() as usize)
                                },
                            ),
                            calls: rest.calls.push(
                                Call { function: handle, position: self.position },
                            ),
                            ..rest
                        },
                        OutcomeView::Running,
                    ),
                    ObjectView::NativeFunction { func, .. } => (
                        rest,
                        OutcomeView::Host(RequestView::Native { func, args }),
                    ),
                    _ => self.fault(Fault::NotCallable),
                },
                _ => self.fault(Fault::NotCallable),
            }
        }
    }

    /// The description on top and, below it, one value for each of its fields
    /// become an instance, which is new on the heap.
    pub open spec fn create_instance(self) -> (Machine, OutcomeView) {
        if self.stack.len() == 0 {
            self.fault(Fault::StackUnderflow)
        } else {
            match self.peek(0) {
                Value::Object(handle) if handle < self.heap.len() => match self.heap[handle as int].arity() {
                    Some(count) => if self.stack.len() - 1 < count {
                        self.fault(Fault::StackUnderflow)
                    } else {
                        let values = self.stack.subrange(
                            self.stack.len() - 1 - count,
                            self.stack.len() - 1,
                        );
                        let rest = self.drop(count as int + 1);
                        Machine {
                            heap: self.heap.push(self.heap[handle as int].instantiate(values)),
                            ..rest
                        }.push(Value::Object(self.heap.len() as usize)).proceed()
                    },
                    None => self.fault(Fault::NotDescriptor),
                },
                _ => self.fault(Fault::NotDescriptor),
            }
        }
    }

    /// The fields of the instance that `value` refers to.
    pub open spec fn fields_of(self, value: Value) -> Option<Seq<Value>> {
        match value {
            Value::Object(handle) if handle < self.heap.len() => self.heap[handle as int].field_values(),
            _ => None,
        }
    }

    pub open spec fn get_property(self, index: usize) -> (Machine, OutcomeView) {
        if self.stack.len() == 0 {
            self.fault(Fault::StackUnderflow)
        } else {
            match self.fields_of(self.peek(0)) {
                None => self.fault(Fault::NotInstance),
                Some(fields) => if index < fields.len() {
                    self.drop(1).push(fields[index as int]).proceed()
                } else {
                    self.fault(Fault::NoProperty)
                },
            }
        }
    }

    /// The value on top goes into the property of the instance below it.
    pub open spec fn set_property(self, index: usize) -> (Machine, OutcomeView) {
        if self.stack.len() < 2 {
            self.fault(Fault::StackUnderflow)
        } else {
            match self.fields_of(self.peek(1)) {
                None => self.fault(Fault::NotInstance),
                Some(fields) => if index < fields.len() {
                    let handle = self.peek(1)->Object_0 as int;
                    Machine {
                        heap: self.heap.update(
                            handle,
                            self.heap[handle].with_field(index as int, self.peek(0)),
                        ),
                        ..self.drop(2)
                    }.proceed()
                } else {
                    self.fault(Fault::NoProperty)
                },
            }
        }
    }

    /// What one instruction does: the state after it and how it ended. After a
    /// fault the state is of no use.
    pub open spec fn step(self, chunk: ChunkView) -> (Machine, OutcomeView) {
        match self.fetch(chunk) {
            Err(fault) => self.fault(fault),
            Ok(op) => match op {
                OpCode::LoadConst(index) => self.load_const(chunk, index),
                OpCode::Copy => self.copy_top(),
                OpCode::Pop => self.pop_top(),
                OpCode::PushFrame => self.push_frame().proceed(),
                OpCode::PopFrame => self.pop_frame_step(),
                OpCode::GetLocal(frame, slot) => self.get_local(frame, slot),
                OpCode::SetLocal(frame, slot) => self.set_local(frame, slot),
                OpCode::Negate => self.negate(),
                OpCode::Return => self.do_return(),
                OpCode::Halt => self.halt(),
                OpCode::Jump(offset) => self.jump(offset as int),
                OpCode::JumpIfFalse(offset) => self.jump_if_false(offset),
                OpCode::Call(count) => self.call(count),
                OpCode::CreateInstance => self.create_instance(),
                OpCode::GetProperty(index) => self.get_property(index),
                OpCode::SetProperty(index) => self.set_property(index),
                _ => self.binary(op),
            },
        }
    }

    /// At most `fuel` instructions, one after the other, until one of them ends
    /// otherwise than with more to run.
    pub open spec fn run(self, chunk: ChunkView, fuel: nat) -> (Machine, OutcomeView)
        decreases fuel,
    {
        if fuel == 0 {
            (self, OutcomeView::Running)
        } else {
            let (next, outcome) = self.step(chunk);
            if outcome is Running {
                next.run(chunk, (fuel - 1) as nat)
            } else {
                (next, outcome)
            }
        }
    }

    /// Ready to run a program from its first instruction, outside any call.
    pub open spec fn started(self) -> Machine {
        Machine { position: 0, is_running: true, calls: Seq::empty(), ..self }
    }

    /// With the answer of the host to what the machine asked for: the answer is
    /// pushed unless it is nothing, and the machine goes on behind the
    /// instruction that asked.
    pub open spec fn answered(self, reply: Value) -> (Machine, OutcomeView) {
        if reply == Value::Nothing {
            self.proceed()
        } else {
            self.push(reply).proceed()
        }
    }
}

/// Whether a machine and an outcome are what `expected` says: the outcome
/// always, the state unless the outcome is a fault.
pub open spec fn agrees(expected: (Machine, OutcomeView), now: Machine, outcome: OutcomeView) -> bool {
    &&& outcome == expected.1
    &&& !(outcome is Fault) ==> now == expected.0
}

} // verus!
