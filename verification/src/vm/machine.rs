//! The stack machine.

use crate::text::before;
use crate::vm::chunk::Chunk;
use crate::vm::op::OpCode;
use crate::vm::state::{
    agrees, Call, Fault, FrameView, Machine, OutcomeView, RequestView,
};
use crate::vm::value::{Float, Heap, Object, RecordInstance, StructInstance, Value};
use vstd::prelude::*;

verus! {

/// The locals of a block or of a call.
#[derive(Debug)]
pub struct StackFrame {
    pub position: usize,
    /// The height of the stack when the frame was opened.
    pub stack_position: usize,
    /// What the frame gives back to whoever opened it.
    pub returned: Option<Value>,
    pub slots: Vec<Value>,
}

impl View for StackFrame {
    type V = FrameView;

    open spec fn view(&self) -> FrameView {
        FrameView {
            position: self.position,
            stack_position: self.stack_position,
            returned: self.returned,
            slots: self.slots@,
        }
    }
}

impl StackFrame {
    #[must_use]
    pub fn new(stack_position: usize) -> (frame: Self)
        ensures
            frame@ == FrameView::fresh(stack_position),
    {
        Self { position: 0, stack_position, slots: Vec::new(), returned: None }
    }

    #[must_use]
    pub fn get_slot(&self, slot: usize) -> (value: Value)
        requires
            slot < self@.slots.len(),
        ensures
            value == self@.slots[slot as int],
    {
        self.slots[slot]
    }

    /// Stores `value` in `slot`; the frame grows as far as it must, and the
    /// slots that come to exist on the way hold nothing.
    pub fn set_slot(&mut self, slot: usize, value: Value)
        requires
            slot < usize::MAX,
        ensures
            final(self)@ == old(self)@.with_slot(slot as int, value),
            final(self)@.slots.len() >= slot + 1,
            final(self)@.slots[slot as int] == value,
    {
        while self.slots.len() < slot + 1
            invariant
                slot < usize::MAX,
                self.position == old(self).position,
                self.stack_position == old(self).stack_position,
                self.returned == old(self).returned,
                self.slots@.len() >= old(self).slots@.len(),
                self.slots@.len() > old(self).slots@.len() ==> self.slots@.len() <= slot + 1,
                self.slots@.subrange(0, old(self).slots@.len() as int) == old(self).slots@,
                forall|i: int| old(self).slots@.len() <= i < self.slots@.len() ==> self.slots@[i] == Value::Nothing,
            decreases slot + 1 - self.slots.len(),
        {
            let ghost before = self.slots@;
            self.slots.push(Value::Nothing);
            assert(self.slots@.subrange(0, old(self).slots@.len() as int) =~= before.subrange(
                0,
                old(self).slots@.len() as int,
            ));
        }
        let ghost padded = self.slots@;
        self.slots[slot] = value;
        assert(self@.slots =~= old(self)@.with_slot(slot as int, value).slots) by {
            let expected = if old(self)@.slots.len() <= slot {
                old(self)@.slots + Seq::new(
                    (slot + 1 - old(self)@.slots.len()) as nat,
                    |i: int| Value::Nothing,
                )
            } else {
                old(self)@.slots
            };
            assert(padded.subrange(0, old(self).slots@.len() as int) == old(self).slots@);
            assert forall|i: int| 0 <= i < padded.len() implies padded[i] == expected[i] by {
                if i < old(self).slots@.len() {
                    assert(padded.subrange(0, old(self).slots@.len() as int)[i] == padded[i]);
                }
            }
            assert(padded =~= expected);
        }
    }

    /// Forgets the locals.
    pub fn reset(&mut self)
        ensures
            final(self)@ == (FrameView { slots: Seq::empty(), position: 0, ..old(self)@ }),
    {
        self.slots.clear();
        self.position = 0;
    }
}

impl Default for StackFrame {
    fn default() -> (frame: Self)
        ensures
            frame@ == FrameView::fresh(0),
    {
        Self::new(0)
    }
}

/// The views of the frames, bottom first.
pub open spec fn frames_view(frames: Seq<StackFrame>) -> Seq<FrameView> {
    Seq::new(frames.len(), |i: int| frames[i]@)
}

/// What the machine asks of the host; see [`RequestView`].
#[derive(Debug, PartialEq)]
pub enum Request {
    Native { func: usize, args: Vec<Value> },
    Arithmetic { op: OpCode, lhs: Float, rhs: Float },
    Negate { value: Float },
}

impl View for Request {
    type V = RequestView;

    open spec fn view(&self) -> RequestView {
        match self {
            Request::Native { func, args } => RequestView::Native { func: *func, args: args@ },
            Request::Arithmetic { op, lhs, rhs } => RequestView::Arithmetic {
                op: *op,
                lhs: *lhs,
                rhs: *rhs,
            },
            Request::Negate { value } => RequestView::Negate { value: *value },
        }
    }
}

/// How a step or a run ended; see [`OutcomeView`].
#[derive(Debug, PartialEq)]
pub enum Outcome {
    Running,
    Finished(Value),
    Host(Request),
    Fault(Fault),
}

impl View for Outcome {
    type V = OutcomeView;

    open spec fn view(&self) -> OutcomeView {
        match self {
            Outcome::Running => OutcomeView::Running,
            Outcome::Finished(value) => OutcomeView::Finished(*value),
            Outcome::Host(request) => OutcomeView::Host(request@),
            Outcome::Fault(fault) => OutcomeView::Fault(*fault),
        }
    }
}

/// The machine: an instruction pointer, a stack of values, a stack of frames,
/// the heap, and the calls that have not returned.
#[derive(Debug)]
pub struct VM {
    pub is_running: bool,
    pub position: usize,
    pub stack: Vec<Value>,
    pub frames: Vec<StackFrame>,
    pub heap: Heap,
    pub calls: Vec<Call>,
}

impl View for VM {
    type V = Machine;

    open spec fn view(&self) -> Machine {
        Machine {
            is_running: self.is_running,
            position: self.position,
            stack: self.stack@,
            frames: frames_view(self.frames@),
            heap: self.heap@,
            calls: self.calls@,
        }
    }
}

impl VM {
    /// A machine at rest over `heap`, with one frame and an empty stack.
    #[must_use]
    pub fn new(heap: Heap) -> (vm: Self)
        ensures
            vm@ == (Machine {
                is_running: false,
                position: 0,
                stack: Seq::empty(),
                frames: seq![FrameView::fresh(0)],
                heap: heap@,
                calls: Seq::empty(),
            }),
    {
        let mut frames: Vec<StackFrame> = Vec::new();
        frames.push(StackFrame::new(0));
        let vm = Self {
            is_running: false,
            position: 0,
            stack: Vec::new(),
            frames,
            heap,
            calls: Vec::new(),
        };
        assert(vm@.frames =~= seq![FrameView::fresh(0)]);
        vm
    }

    /// The top frame.
    #[must_use]
    pub fn frame(&self) -> (frame: &StackFrame)
        requires
            self@.frames.len() > 0,
        ensures
            frame@ == self@.frames.last(),
    {
        let frame = self.frames.len() - 1;
        &self.frames[frame]
    }

    /// The top frame, to be changed.
    pub fn frame_mut(&mut self) -> (frame: &mut StackFrame)
        requires
            old(self)@.frames.len() > 0,
        ensures
            frame@ == old(self)@.frames.last(),
            final(self)@ == (Machine {
                frames: old(self)@.frames.update(old(self)@.frames.len() - 1, final(frame)@),
                ..old(self)@
            }),
    {
        let top = self.frames.len() - 1;
        let ghost before = self.frames@;
        let frame = &mut self.frames[top];
        proof {
            assert(frames_view(before.update(top as int, *final(frame))) =~= frames_view(
                before,
            ).update(top as int, final(frame)@));
        }
        frame
    }

    pub fn push(&mut self, value: Value)
        ensures
            final(self)@ == old(self)@.push(value),
    {
        self.stack.push(value);
    }

    pub fn pop(&mut self) -> (value: Value)
        requires
            old(self)@.stack.len() > 0,
        ensures
            value == old(self)@.peek(0),
            final(self)@ == old(self)@.drop(1),
    {
        let value = self.stack.pop().unwrap();
        assert(self@.stack =~= old(self)@.drop(1).stack);
        value
    }

    #[must_use]
    pub fn peek(&self, distance: usize) -> (value: Value)
        requires
            distance < self@.stack.len(),
        ensures
            value == self@.peek(distance as int),
    {
        self.stack[self.stack.len() - 1 - distance]
    }

    /// Back to rest: the top frame forgets its locals.
    pub fn reset(&mut self)
        requires
            old(self)@.frames.len() > 0,
        ensures
            final(self)@ == (Machine {
                position: 0,
                is_running: false,
                frames: old(self)@.frames.update(
                    old(self)@.frames.len() - 1,
                    FrameView { slots: Seq::empty(), position: 0, ..old(self)@.frames.last() },
                ),
                ..old(self)@
            }),
    {
        let top = self.frames.len() - 1;
        self.frames[top].reset();
        self.position = 0;
        self.is_running = false;
        assert(self@.frames =~= old(self)@.frames.update(
            old(self)@.frames.len() - 1,
            FrameView { slots: Seq::empty(), position: 0, ..old(self)@.frames.last() },
        ));
    }

    pub fn push_frame(&mut self)
        ensures
            final(self)@ == old(self)@.push_frame(),
    {
        self.frames.push(StackFrame::new(self.stack.len()));
        assert(self@.frames =~= old(self)@.push_frame().frames);
    }

    /// Takes the top frame away and cuts the stack back to the height that the
    /// frame remembers. Returns what the frame gives back.
    pub fn pop_frame(&mut self) -> (returned: Option<Value>)
        requires
            old(self)@.frames.len() > 0,
        ensures
            returned == old(self)@.frames.last().returned,
            final(self)@ == (Machine {
                frames: old(self)@.frames.drop_last(),
                stack: if old(self)@.frames.last().stack_position <= old(self)@.stack.len() {
                    old(self)@.stack.subrange(0, old(self)@.frames.last().stack_position as int)
                } else {
                    old(self)@.stack
                },
                ..old(self)@
            }),
    {
        let frame = self.frames.pop().unwrap();
        self.stack.truncate(frame.stack_position);
        assert(self@.frames =~= old(self)@.frames.drop_last());
        assert(frame@ == old(self)@.frames.last());
        frame.returned
    }

    fn proceed(&mut self) -> (outcome: Outcome)
        ensures
            agrees(old(self)@.proceed(), final(self)@, outcome@),
    {
        if self.position < usize::MAX {
            self.position = self.position + 1;
            Outcome::Running
        } else {
            Outcome::Fault(Fault::BadJump)
        }
    }

    fn jump(&mut self, offset: isize) -> (outcome: Outcome)
        ensures
            agrees(old(self)@.jump(offset as int), final(self)@, outcome@),
    {
        if offset >= 0 {
            let forward = offset as usize;
            if forward < usize::MAX - self.position {
                self.position = self.position + forward + 1;
                Outcome::Running
            } else {
                Outcome::Fault(Fault::BadJump)
            }
        } else {
            let back: usize = (-(offset + 1)) as usize;
            if back < self.position {
                self.position = self.position - back;
                Outcome::Running
            } else {
                Outcome::Fault(Fault::BadJump)
            }
        }
    }

    fn jump_forward(&mut self, offset: usize) -> (outcome: Outcome)
        ensures
            agrees(old(self)@.jump(offset as int), final(self)@, outcome@),
    {
        if offset < usize::MAX - self.position {
            self.position = self.position + offset + 1;
            Outcome::Running
        } else {
            Outcome::Fault(Fault::BadJump)
        }
    }

    /// The instruction to run next.
    pub fn fetch(&self, chunk: &Chunk) -> (fetched: Result<OpCode, Fault>)
        ensures
            fetched == self@.fetch(chunk@),
    {
        if self.calls.len() == 0 {
            match chunk.get(self.position) {
                Some(entry) => Ok(entry.1),
                None => Err(Fault::OutOfCode),
            }
        } else {
            let function = self.calls[self.calls.len() - 1].function;
            match self.heap.get(function) {
                Some(Object::Function(body)) => match body.chunk.get(self.position) {
                    Some(entry) => Ok(entry.1),
                    None => Err(Fault::OutOfCode),
                },
                _ => Err(Fault::NotCallable),
            }
        }
    }

    fn constant(&self, chunk: &Chunk, index: usize) -> (value: Option<Value>)
        ensures
            value == match self@.code(chunk@) {
                Some(code) if index < code.constants.len() => Some(code.constants[index as int]),
                _ => None,
            },
    {
        if self.calls.len() == 0 {
            if index < chunk.constants() {
                Some(chunk.get_const_cloned(index))
            } else {
                None
            }
        } else {
            let function = self.calls[self.calls.len() - 1].function;
            match self.heap.get(function) {
                Some(Object::Function(body)) => if index < body.chunk.constants() {
                    Some(body.chunk.get_const_cloned(index))
                } else {
                    None
                },
                _ => None,
            }
        }
    }

    fn load_const(&mut self, chunk: &Chunk, index: usize) -> (outcome: Outcome)
        ensures
            agrees(old(self)@.load_const(chunk@, index), final(self)@, outcome@),
    {
        match self.constant(chunk, index) {
            Some(value) => {
                self.push(value);
                self.proceed()
            },
            None => Outcome::Fault(Fault::NoConstant),
        }
    }

    fn copy_top(&mut self) -> (outcome: Outcome)
        ensures
            agrees(old(self)@.copy_top(), final(self)@, outcome@),
    {
        if self.stack.len() == 0 {
            Outcome::Fault(Fault::StackUnderflow)
        } else {
            let top = self.peek(0);
            self.push(top);
            self.proceed()
        }
    }

    fn pop_top(&mut self) -> (outcome: Outcome)
        ensures
            agrees(old(self)@.pop_top(), final(self)@, outcome@),
    {
        if self.stack.len() == 0 {
            Outcome::Fault(Fault::StackUnderflow)
        } else {
            self.pop();
            self.proceed()
        }
    }

    fn pop_frame_step(&mut self) -> (outcome: Outcome)
        ensures
            agrees(old(self)@.pop_frame_step(), final(self)@, outcome@),
    {
        if self.frames.len() == 0 {
            Outcome::Fault(Fault::NoFrame)
        } else {
            if let Some(value) = self.pop_frame() {
                self.push(value);
            }
            assert(self@ == old(self)@.pop_frame());
            self.proceed()
        }
    }

    /// The place of the frame that lies `frame` above the top one, which is
    /// below it where `frame` is negative.
    fn frame_index(&self, frame: isize) -> (index: Option<usize>)
        ensures
            match index {
                Some(found) => found == self@.frames.len() - 1 + frame && found < self@.frames.len(),
                None => !(0 <= self@.frames.len() - 1 + frame < self@.frames.len()),
            },
    {
        let count = self.frames.len();
        if frame > 0 || count == 0 {
            None
        } else if frame == 0 {
            Some(count - 1)
        } else {
            let below: usize = (-(frame + 1)) as usize;
            if below < count - 1 {
                Some(count - 2 - below)
            } else {
                None
            }
        }
    }

    fn get_local(&mut self, frame: isize, slot: usize) -> (outcome: Outcome)
        ensures
            agrees(old(self)@.get_local(frame, slot), final(self)@, outcome@),
    {
        match self.frame_index(frame) {
            None => Outcome::Fault(Fault::NoFrame),
            Some(index) => {
                let ghost place = self@.frames.len() - 1 + frame;
                assert(place == index as int);
                assert(self@.frames[place] == self.frames@[index as int]@);
                if slot >= self.frames[index].slots.len() {
                    Outcome::Fault(Fault::NoSlot)
                } else {
                    let value = self.frames[index].get_slot(slot);
                    self.push(value);
                    self.proceed()
                }
            },
        }
    }

    #[verifier::rlimit(40)]
    fn set_local(&mut self, frame: Option<usize>, slot: usize) -> (outcome: Outcome)
        ensures
            agrees(old(self)@.set_local(frame, slot), final(self)@, outcome@),
    {
        if self.stack.len() == 0 {
            return Outcome::Fault(Fault::StackUnderflow);
        }
        if self.frames.len() == 0 {
            return Outcome::Fault(Fault::NoFrame);
        }
        let index = match frame {
            Some(absolute) => absolute,
            None => self.frames.len() - 1,
        };
        if index >= self.frames.len() {
            return Outcome::Fault(Fault::NoFrame);
        }
        if slot == usize::MAX {
            return Outcome::Fault(Fault::NoSlot);
        }
        let value = self.pop();
        assert(self@.frames.len() == old(self)@.frames.len());
        assert(self@.frames[index as int] == old(self)@.frames[index as int]);
        assert(self@.frames[index as int] == self.frames@[index as int]@);
        let ghost below = self@.frames;
        self.frames[index].set_slot(slot, value);
        assert(forall|j: int| 0 <= j < below.len() && j != index ==> self@.frames[j] == below[j]);
        assert(self@.frames =~= old(self)@.frames.update(
            index as int,
            old(self)@.frames[index as int].with_slot(slot as int, value),
        ));
        self.proceed()
    }

    /// Whether object `a` is ordered before object `b`.
    fn object_before(&self, a: usize, b: usize) -> (first: bool)
        ensures
            first == crate::vm::state::object_before(self@.heap, a, b),
    {
        match (self.heap.get(a), self.heap.get(b)) {
            (Some(Object::String(x)), Some(Object::String(y))) => before(x.as_str(), y.as_str()),
            (Some(Object::StructInstance(x)), Some(Object::StructInstance(y))) => before(
                x.name.as_str(),
                y.name.as_str(),
            ),
            (Some(Object::RecordInstance(x)), Some(Object::RecordInstance(y))) => before(
                x.name.as_str(),
                y.name.as_str(),
            ),
            _ => false,
        }
    }

    fn comparison(&self, op: OpCode, a: Value, b: Value) -> (result: bool)
        requires
            op == OpCode::Equal || op == OpCode::Greater || op == OpCode::Less,
        ensures
            result == crate::vm::state::comparison(self@.heap, op, a, b),
    {
        match op {
            OpCode::Equal => a == b,
            OpCode::Greater => match (a, b) {
                (Value::Integer(x), Value::Integer(y)) => x > y,
                (Value::Boolean(x), Value::Boolean(y)) => x && !y,
                (Value::Object(x), Value::Object(y)) => self.object_before(y, x),
                _ => false,
            },
            _ => match (a, b) {
                (Value::Integer(x), Value::Integer(y)) => x < y,
                (Value::Boolean(x), Value::Boolean(y)) => !x && y,
                (Value::Object(x), Value::Object(y)) => self.object_before(x, y),
                _ => false,
            },
        }
    }

    #[verifier::rlimit(40)]
    fn binary(&mut self, op: OpCode) -> (outcome: Outcome)
        requires
            op == OpCode::Equal || op == OpCode::Greater || op == OpCode::Less || op == OpCode::Add
                || op == OpCode::Sub || op == OpCode::Mul || op == OpCode::Div,
        ensures
            agrees(old(self)@.binary(op), final(self)@, outcome@),
    {
        if self.stack.len() < 2 {
            return Outcome::Fault(Fault::StackUnderflow);
        }
        let b = self.pop();
        let a = self.pop();
        assert(self@ == old(self)@.drop(2)) by {
            assert(self@.stack =~= old(self)@.drop(2).stack);
        }
        match (a, b) {
            (Value::Float(lhs), Value::Float(rhs)) => Outcome::Host(
                Request::Arithmetic { op, lhs, rhs },
            ),
            _ => {
                if op == OpCode::Equal || op == OpCode::Greater || op == OpCode::Less {
                    let result = self.comparison(op, a, b);
                    self.push(Value::Boolean(result));
                    self.proceed()
                } else {
                    match (a, b) {
                        (Value::Integer(x), Value::Integer(y)) => {
                            if op == OpCode::Div && y == 0 {
                                return Outcome::Fault(Fault::DivisionByZero);
                            }
                            let computed = match op {
                                OpCode::Add => x.checked_add(y),
                                OpCode::Sub => x.checked_sub(y),
                                OpCode::Mul => x.checked_mul(y),
                                _ => x.checked_div(y),
                            };
                            match computed {
                                Some(result) => {
                                    self.push(Value::Integer(result));
                                    self.proceed()
                                },
                                None => Outcome::Fault(Fault::Overflow),
                            }
                        },
                        _ => Outcome::Fault(Fault::OperandMismatch),
                    }
                }
            },
        }
    }

    fn negate(&mut self) -> (outcome: Outcome)
        ensures
            agrees(old(self)@.negate(), final(self)@, outcome@),
    {
        if self.stack.len() == 0 {
            return Outcome::Fault(Fault::StackUnderflow);
        }
        match self.pop() {
            Value::Integer(value) => {
                if value == i64::MIN {
                    Outcome::Fault(Fault::Overflow)
                } else {
                    self.push(Value::Integer(-value));
                    self.proceed()
                }
            },
            Value::Float(value) => Outcome::Host(Request::Negate { value }),
            Value::Boolean(value) => {
                self.push(Value::Boolean(!value));
                self.proceed()
            },
            _ => Outcome::Fault(Fault::NotNegatable),
        }
    }

    fn do_return(&mut self) -> (outcome: Outcome)
        ensures
            agrees(old(self)@.do_return(), final(self)@, outcome@),
    {
        if self.frames.len() == 0 {
            return Outcome::Fault(Fault::NoFrame);
        }
        let top = self.frames.len() - 1;
        if self.stack.len() > self.frames[top].stack_position {
            let value = self.pop();
            self.frames[top].returned = Some(value);
            assert(self@.frames =~= old(self)@.frames.update(
                old(self)@.frames.len() - 1,
                FrameView { returned: Some(value), ..old(self)@.frames.last() },
            ));
        }
        self.proceed()
    }

    #[verifier::rlimit(40)]
    fn halt(&mut self) -> (outcome: Outcome)
        ensures
            agrees(old(self)@.halt(), final(self)@, outcome@),
    {
        if self.frames.len() == 0 {
            return Outcome::Fault(Fault::NoFrame);
        }
        if self.calls.len() > 0 {
            let call = self.calls.pop().unwrap();
            let frame = self.frames.pop().unwrap();
            assert(frame@ == old(self)@.frames.last());
            if let Some(value) = frame.returned {
                self.stack.push(value);
            }
            self.position = call.position;
            assert(self@.frames =~= old(self)@.frames.drop_last());
            assert(self@.calls =~= old(self)@.calls.drop_last());
            self.proceed()
        } else {
            let top = self.frames.len() - 1;
            let value = match self.frames[top].returned {
                Some(value) => value,
                None => Value::Nothing,
            };
            self.frames[top].returned = None;
            self.is_running = false;
            assert(self@.frames =~= old(self)@.frames.update(
                old(self)@.frames.len() - 1,
                FrameView { returned: None, ..old(self)@.frames.last() },
            ));
            match self.proceed() {
                Outcome::Running => Outcome::Finished(value),
                other => other,
            }
        }
    }

    fn jump_if_false(&mut self, offset: usize) -> (outcome: Outcome)
        ensures
            agrees(old(self)@.jump_if_false(offset), final(self)@, outcome@),
    {
        if self.stack.len() == 0 {
            return Outcome::Fault(Fault::StackUnderflow);
        }
        if self.peek(0) == Value::Boolean(false) {
            self.pop();
            self.jump_forward(offset)
        } else {
            self.proceed()
        }
    }

    #[verifier::rlimit(40)]
    fn call(&mut self, count: usize) -> (outcome: Outcome)
        ensures
            agrees(old(self)@.call(count), final(self)@, outcome@),
    {
        if self.stack.len() <= count {
            return Outcome::Fault(Fault::StackUnderflow);
        }
        let callee = self.peek(count);
        let handle = match callee {
            Value::Object(handle) => handle,
            _ => {
                return Outcome::Fault(Fault::NotCallable);
            },
        };
        let native: Option<usize> = match self.heap.get(handle) {
            Some(Object::Function(_)) => None,
            Some(Object::NativeFunction(function)) => Some(function.func),
            _ => {
                return Outcome::Fault(Fault::NotCallable);
            },
        };
        let mut args = self.stack.split_off(self.stack.len() - count);
        self.pop();
        assert(self@ == old(self)@.drop(count + 1)) by {
            assert(self@.stack =~= old(self)@.drop(count + 1).stack);
        }
        assert(args@ =~= old(self)@.stack.subrange(
            old(self)@.stack.len() - count,
            old(self)@.stack.len() as int,
        ));
        match native {
            Some(func) => Outcome::Host(Request::Native { func, args }),
            None => {
                args.push(callee);
                let mut frame = StackFrame::new(self.stack.len());
                frame.slots = args;
                self.frames.push(frame);
                self.calls.push(Call { function: handle, position: self.position });
                self.position = 0;
                assert(self@.frames =~= old(self)@.drop(count + 1).frames.push(
                    FrameView {
                        slots: old(self)@.stack.subrange(
                            old(self)@.stack.len() - count,
                            old(self)@.stack.len() as int,
                        ).push(callee),
                        ..FrameView::fresh(old(self)@.drop(count + 1).stack.len() as usize)
                    },
                ));
                Outcome::Running
            },
        }
    }

    /// The number of fields of the description at `handle`.
    fn arity(&self, handle: usize) -> (count: Option<usize>)
        ensures
            count is Some == (handle < self@.heap.len() && self@.heap[handle as int].arity() is Some),
            count matches Some(n) ==> Some(n as nat) == self@.heap[handle as int].arity(),
    {
        match self.heap.get(handle) {
            Some(Object::Struct(structure)) => Some(structure.fields.len()),
            Some(Object::Record(record)) => Some(record.fields.len()),
            _ => None,
        }
    }

    /// The instance that the description `object` makes of `values`.
    #[verifier::rlimit(40)]
    fn instantiate(object: &Object, values: Vec<Value>) -> (instance: Object)
        requires
            object@.arity() == Some(values@.len()),
        ensures
            instance@ == object@.instantiate(values@),
    {
        match object {
            Object::Struct(structure) => {
                let mut fields: Vec<(String, Value)> = Vec::new();
                let mut i: usize = 0;
                while i < values.len()
                    invariant
                        i <= values.len(),
                        values.len() == structure.fields.len(),
                        fields.len() == i,
                        forall|j: int| 0 <= j < i ==> fields@[j].0@ == structure.fields@[j].0@,
                        forall|j: int| 0 <= j < i ==> fields@[j].1 == values@[j],
                    decreases values.len() - i,
                {
                    let name = structure.fields[i].0.clone();
                    let value = values[i];
                    let ghost earlier = fields@;
                    fields.push((name, value));
                    assert(forall|j: int| 0 <= j < i ==> fields@[j] == earlier[j]);
                    assert(fields@[i as int] == (name, value));
                    i += 1;
                }
                let instance = Object::StructInstance(
                    StructInstance { name: structure.name.clone(), fields },
                );
                assert(instance@->StructInstance_named =~= object@.instantiate(
                    values@,
                )->StructInstance_named);
                instance
            },
            Object::Record(record) => Object::RecordInstance(
                RecordInstance { name: record.name.clone(), fields: values },
            ),
            _ => Object::RecordInstance(RecordInstance { name: String::new(), fields: values }),
        }
    }

    #[verifier::rlimit(40)]
    fn create_instance(&mut self) -> (outcome: Outcome)
        ensures
            agrees(old(self)@.create_instance(), final(self)@, outcome@),
    {
        if self.stack.len() == 0 {
            return Outcome::Fault(Fault::StackUnderflow);
        }
        let handle = match self.peek(0) {
            Value::Object(handle) => handle,
            _ => {
                return Outcome::Fault(Fault::NotDescriptor);
            },
        };
        let count = match self.arity(handle) {
            Some(count) => count,
            None => {
                return Outcome::Fault(Fault::NotDescriptor);
            },
        };
        if self.stack.len() - 1 < count {
            return Outcome::Fault(Fault::StackUnderflow);
        }
        self.pop();
        let values = self.stack.split_off(self.stack.len() - count);
        assert(values@ =~= old(self)@.stack.subrange(
            old(self)@.stack.len() - 1 - count,
            old(self)@.stack.len() - 1,
        ));
        assert(self@.stack =~= old(self)@.drop(count + 1).stack);
        let instance = Self::instantiate(&self.heap.objects[handle], values);
        let made = Value::object(&mut self.heap, instance);
        self.push(made);
        self.proceed()
    }

    /// The value of property `index` of the instance at `handle`.
    fn property(&self, value: Value, index: usize) -> (found: Result<Value, Fault>)
        ensures
            found == match self@.fields_of(value) {
                None => Err::<Value, Fault>(Fault::NotInstance),
                Some(fields) => if index < fields.len() {
                    Ok(fields[index as int])
                } else {
                    Err(Fault::NoProperty)
                },
            },
    {
        let handle = match value {
            Value::Object(handle) => handle,
            _ => {
                return Err(Fault::NotInstance);
            },
        };
        match self.heap.get(handle) {
            Some(Object::StructInstance(instance)) => if index < instance.fields.len() {
                Ok(instance.fields[index].1)
            } else {
                Err(Fault::NoProperty)
            },
            Some(Object::RecordInstance(instance)) => if index < instance.fields.len() {
                Ok(instance.fields[index])
            } else {
                Err(Fault::NoProperty)
            },
            _ => Err(Fault::NotInstance),
        }
    }

    fn get_property(&mut self, index: usize) -> (outcome: Outcome)
        ensures
            agrees(old(self)@.get_property(index), final(self)@, outcome@),
    {
        if self.stack.len() == 0 {
            return Outcome::Fault(Fault::StackUnderflow);
        }
        match self.property(self.peek(0), index) {
            Ok(value) => {
                self.pop();
                self.push(value);
                self.proceed()
            },
            Err(fault) => Outcome::Fault(fault),
        }
    }

    /// Sets field `index` of an instance.
    fn set_field(object: &mut Object, index: usize, value: Value)
        requires
            old(object)@.field_values() matches Some(fields) && index < fields.len(),
        ensures
            final(object)@ == old(object)@.with_field(index as int, value),
    {
        match object {
            Object::StructInstance(instance) => {
                let name = instance.fields[index].0.clone();
                instance.fields[index] = (name, value);
                assert(instance.fields@.len() == old(object)->StructInstance_0.fields@.len());
                assert(final(object)@->StructInstance_named =~= old(object)@.with_field(
                    index as int,
                    value,
                )->StructInstance_named);
            },
            Object::RecordInstance(instance) => {
                instance.fields[index] = value;
            },
            _ => {},
        }
    }

    #[verifier::rlimit(40)]
    fn set_property(&mut self, index: usize) -> (outcome: Outcome)
        ensures
            agrees(old(self)@.set_property(index), final(self)@, outcome@),
    {
        if self.stack.len() < 2 {
            return Outcome::Fault(Fault::StackUnderflow);
        }
        match self.property(self.peek(1), index) {
            Ok(_) => {
                let value = self.pop();
                let target = self.pop();
                assert(self@.stack =~= old(self)@.drop(2).stack);
                match target {
                    Value::Object(handle) => {
                        Self::set_field(&mut self.heap.objects[handle], index, value);
                        assert(self@.heap =~= old(self)@.heap.update(
                            handle as int,
                            old(self)@.heap[handle as int].with_field(index as int, value),
                        ));
                    },
                    _ => {},
                }
                self.proceed()
            },
            Err(fault) => Outcome::Fault(fault),
        }
    }

    /// Runs one instruction.
    pub fn step(&mut self, chunk: &Chunk) -> (outcome: Outcome)
        ensures
            agrees(old(self)@.step(chunk@), final(self)@, outcome@),
    {
        match self.fetch(chunk) {
            Err(fault) => Outcome::Fault(fault),
            Ok(op) => match op {
                OpCode::LoadConst(index) => self.load_const(chunk, index),
                OpCode::Copy => self.copy_top(),
                OpCode::Pop => self.pop_top(),
                OpCode::PushFrame => {
                    self.push_frame();
                    self.proceed()
                },
                OpCode::PopFrame => self.pop_frame_step(),
                OpCode::GetLocal(frame, slot) => self.get_local(frame, slot),
                OpCode::SetLocal(frame, slot) => self.set_local(frame, slot),
                OpCode::Negate => self.negate(),
                OpCode::Return => self.do_return(),
                OpCode::Halt => self.halt(),
                OpCode::Jump(offset) => self.jump(offset),
                OpCode::JumpIfFalse(offset) => self.jump_if_false(offset),
                OpCode::Call(count) => self.call(count),
                OpCode::CreateInstance => self.create_instance(),
                OpCode::GetProperty(index) => self.get_property(index),
                OpCode::SetProperty(index) => self.set_property(index),
                _ => self.binary(op),
            },
        }
    }

    /// Runs at most `fuel` instructions from where the machine stands.
    pub fn run(&mut self, chunk: &Chunk, fuel: usize) -> (outcome: Outcome)
        ensures
            agrees(old(self)@.run(chunk@, fuel as nat), final(self)@, outcome@),
    {
        let mut left = fuel;
        while left > 0
            invariant
                old(self)@.run(chunk@, fuel as nat) == self@.run(chunk@, left as nat),
            decreases left,
        {
            let outcome = self.step(chunk);
            match outcome {
                Outcome::Running => {
                    left = left - 1;
                },
                other => {
                    return other;
                },
            }
        }
        Outcome::Running
    }

    /// Runs `chunk` from its first instruction, for at most `fuel`
    /// instructions. The stack, the frames and the heap are taken as they are.
    pub fn interpret(&mut self, chunk: &Chunk, fuel: usize) -> (outcome: Outcome)
        ensures
            agrees(old(self)@.started().run(chunk@, fuel as nat), final(self)@, outcome@),
    {
        self.position = 0;
        self.is_running = true;
        self.calls.clear();
        assert(self@ == old(self)@.started()) by {
            assert(self@.calls =~= Seq::<Call>::empty());
        }
        self.run(chunk, fuel)
    }

    /// Goes on after the host has answered what the machine asked for.
    pub fn resume(&mut self, chunk: &Chunk, reply: Value, fuel: usize) -> (outcome: Outcome)
        ensures
            agrees(
                match old(self)@.answered(reply) {
                    (machine, OutcomeView::Running) => machine.run(chunk@, fuel as nat),
                    other => other,
                },
                final(self)@,
                outcome@,
            ),
    {
        if reply != Value::Nothing {
            self.push(reply);
        }
        match self.proceed() {
            Outcome::Running => self.run(chunk, fuel),
            other => other,
        }
    }
}

} // verus!
