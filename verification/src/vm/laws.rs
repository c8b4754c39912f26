//! What holds of every state of the machine.

use crate::vm::chunk::ChunkView;
use crate::vm::op::OpCode;
use crate::vm::state::{Fault, Machine};
use vstd::prelude::*;

verus! {

/// After `PopFrame` the stack is as high as it was when the frame was opened,
/// and one higher where the frame gives a value back. This is so wherever the
/// stack has not sunk below that height in the meantime; where it has, the
/// stack stays as it is.
pub proof fn lemma_pop_frame_restores_height(machine: Machine, chunk: ChunkView)
    requires
        machine.fetch(chunk) == Ok::<OpCode, Fault>(OpCode::PopFrame),
        machine.frames.len() > 0,
        machine.stack.len() >= machine.frames.last().stack_position,
    ensures
        machine.step(chunk).0.frames == machine.frames.drop_last(),
        machine.step(chunk).0.stack.len() == machine.frames.last().stack_position + (
        if machine.frames.last().returned is Some {
            1nat
        } else {
            0nat
        }),
        machine.frames.last().returned matches Some(value) ==> machine.step(chunk).0.stack.last()
            == value,
{
}

/// After `SetLocal` the frame that it names, the top one where it names none,
/// holds at least the slot that was set, and in it the value that was on top of
/// the stack; no other frame has changed.
pub proof fn lemma_set_local_makes_room(
    machine: Machine,
    chunk: ChunkView,
    frame: Option<usize>,
    slot: usize,
)
    requires
        machine.fetch(chunk) == Ok::<OpCode, Fault>(OpCode::SetLocal(frame, slot)),
        !(machine.step(chunk).1 is Fault),
    ensures
        ({
            let after = machine.step(chunk).0;
            let target: int = match frame {
                Some(absolute) => absolute as int,
                None => machine.frames.len() - 1,
            };
            &&& 0 <= target < machine.frames.len()
            &&& after.frames.len() == machine.frames.len()
            &&& after.frames[target].slots.len() >= slot + 1
            &&& after.frames[target].slots[slot as int] == machine.peek(0)
            &&& after.stack.len() + 1 == machine.stack.len()
            &&& forall|other: int|
                0 <= other < machine.frames.len() && other != target ==> after.frames[other]
                    == machine.frames[other]
        }),
{
}

/// A step changes no object that is on the heap unless it is `SetProperty`, and
/// never takes one away.
pub proof fn lemma_heap_only_grows(machine: Machine, chunk: ChunkView)
    requires
        !(machine.fetch(chunk) matches Ok(OpCode::SetProperty(_))),
    ensures
        machine.step(chunk).0.heap.len() >= machine.heap.len(),
        forall|handle: int|
            0 <= handle < machine.heap.len() ==> machine.step(chunk).0.heap[handle]
                == machine.heap[handle],
{
}

/// A run that has ended otherwise than by running out of fuel ends the same
/// way with more fuel.
pub proof fn lemma_more_fuel_same_end(machine: Machine, chunk: ChunkView, fuel: nat, more: nat)
    requires
        !(machine.run(chunk, fuel).1 is Running),
        more >= fuel,
    ensures
        machine.run(chunk, more) == machine.run(chunk, fuel),
    decreases fuel,
{
    if fuel > 0 {
        let (next, outcome) = machine.step(chunk);
        if outcome is Running {
            lemma_more_fuel_same_end(next, chunk, (fuel - 1) as nat, (more - 1) as nat);
        }
    }
}

} // verus!
