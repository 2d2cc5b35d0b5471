//! Instructions that push or pop operands as they are.

use vstd::prelude::*;

use crate::binary::be16;
use crate::instruction::{current, has_code, operand};
use crate::java::{Int, Value};
use crate::thread::{FrameModel, Thread, with_top};

verus! {

/// `pop`: discard the operand on top, which must be of the first category.
pub fn pop(thread: &mut Thread)
    requires
        old(thread)@.len() > 0,
        current(old(thread)@).stack.len() > 0,
        operand(old(thread)@, 0).spec_category() == 1,
    ensures
        final(thread).spec_reference() == old(thread).spec_reference(),
        final(thread)@ == with_top(
            old(thread)@,
            FrameModel { stack: current(old(thread)@).stack.drop_last(), ..current(old(thread)@) },
        ),
{
    let mut frame = thread.pop_frame();
    frame.operand_stack.pop_cat_one();
    thread.push_frame(frame);
}

/// `sipush`: push the signed 16-bit value that follows the opcode, as an int.
pub fn sipush(thread: &mut Thread)
    requires
        has_code(old(thread)@, 2),
    ensures
        final(thread).spec_reference() == old(thread).spec_reference(),
        ({
            let f = current(old(thread)@);
            final(thread)@ == with_top(
                old(thread)@,
                FrameModel {
                    pc: f.pc + 2,
                    stack: f.stack.push(Value::Int(Int((be16(f.code, f.pc) as i16) as i32))),
                    ..f
                },
            )
        }),
{
    let mut frame = thread.pop_frame();
    let short = frame.read_i16() as i32;
    frame.operand_stack.push_cat_one(Value::Int(Int(short)));
    thread.push_frame(frame);
}

} // verus!
