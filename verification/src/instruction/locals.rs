//! Moving values between the operand stack and the local variables.

use vstd::prelude::*;

use crate::instruction::{current, has_code, operand};
use crate::java::Value;
use crate::thread::{FrameModel, Thread, with_top};

verus! {

/// The current frame after popping its top operand into local `index`.
pub open spec fn store(f: FrameModel, index: int, v: Value) -> FrameModel {
    FrameModel {
        stack: f.stack.drop_last(),
        locals: f.locals.update(index, v),
        ..f
    }
}

/// The current frame after pushing local `index` on its operand stack.
pub open spec fn load(f: FrameModel, index: int) -> FrameModel {
    FrameModel { stack: f.stack.push(f.locals[index]), ..f }
}

/// Whether the current frame has an operand to store and a local `index` to store it in.
pub open spec fn can_store(t: Seq<FrameModel>, index: int) -> bool {
    &&& t.len() > 0
    &&& current(t).stack.len() >= 1
    &&& 0 <= index < current(t).locals.len()
}

/// The index that follows the opcode, for the forms of the instructions that read one.
pub open spec fn code_index(t: Seq<FrameModel>) -> int {
    current(t).code[current(t).pc] as int
}

/// `astore_<n>`: pop the reference on top into local `n`.
pub fn astore_n(thread: &mut Thread, n: u16)
    requires
        can_store(old(thread)@, n as int),
        operand(old(thread)@, 0) is Reference,
    ensures
        final(thread).spec_reference() == old(thread).spec_reference(),
        final(thread)@ == with_top(old(thread)@, store(current(old(thread)@), n as int, operand(old(thread)@, 0))),
{
    let mut frame = thread.pop_frame();
    let value = frame.operand_stack.pop();
    frame.local_vars.store_value(n, Value::Reference(value.as_reference()));
    thread.push_frame(frame);
}

/// `istore_<n>`: pop the value on top into local `n`.
pub fn istore_n(thread: &mut Thread, n: u16)
    requires
        can_store(old(thread)@, n as int),
    ensures
        final(thread).spec_reference() == old(thread).spec_reference(),
        final(thread)@ == with_top(old(thread)@, store(current(old(thread)@), n as int, operand(old(thread)@, 0))),
{
    let mut frame = thread.pop_frame();
    let value = frame.operand_stack.pop();
    frame.local_vars.store_value(n, value);
    thread.push_frame(frame);
}

/// `iload_<n>`: push the int in local `n`.
pub fn iload_n(thread: &mut Thread, n: u16)
    requires
        old(thread)@.len() > 0,
        n < current(old(thread)@).locals.len(),
        current(old(thread)@).locals[n as int] is Int,
    ensures
        final(thread).spec_reference() == old(thread).spec_reference(),
        final(thread)@ == with_top(old(thread)@, load(current(old(thread)@), n as int)),
{
    let mut frame = thread.pop_frame();
    let value = frame.local_vars.load_cat_one(n).as_int();
    frame.operand_stack.push(Value::Int(value));
    thread.push_frame(frame);
}

/// `aload_<n>`: push the reference in local `n`.
pub fn aload_n(thread: &mut Thread, n: u16)
    requires
        old(thread)@.len() > 0,
        n < current(old(thread)@).locals.len(),
        current(old(thread)@).locals[n as int] is Reference,
    ensures
        final(thread).spec_reference() == old(thread).spec_reference(),
        final(thread)@ == with_top(old(thread)@, load(current(old(thread)@), n as int)),
{
    let mut frame = thread.pop_frame();
    let reference = frame.local_vars.load_cat_one(n).as_reference();
    frame.operand_stack.push(Value::Reference(reference));
    thread.push_frame(frame);
}

/// `istore`: pop the int on top into the local whose index follows the opcode.
pub fn istore(thread: &mut Thread)
    requires
        has_code(old(thread)@, 1),
        can_store(old(thread)@, code_index(old(thread)@)),
        operand(old(thread)@, 0) is Int,
    ensures
        final(thread).spec_reference() == old(thread).spec_reference(),
        final(thread)@ == with_top(
            old(thread)@,
            store(
                FrameModel { pc: current(old(thread)@).pc + 1, ..current(old(thread)@) },
                code_index(old(thread)@),
                operand(old(thread)@, 0),
            ),
        ),
{
    let mut frame = thread.pop_frame();
    let index = frame.read_u8();
    let value = frame.operand_stack.pop().as_int();
    frame.local_vars.store_value(index as u16, Value::Int(value));
    thread.push_frame(frame);
}

/// `astore`: pop the reference on top into the local whose index follows the opcode.
pub fn astore(thread: &mut Thread)
    requires
        has_code(old(thread)@, 1),
        can_store(old(thread)@, code_index(old(thread)@)),
        operand(old(thread)@, 0) is Reference,
    ensures
        final(thread).spec_reference() == old(thread).spec_reference(),
        final(thread)@ == with_top(
            old(thread)@,
            store(
                FrameModel { pc: current(old(thread)@).pc + 1, ..current(old(thread)@) },
                code_index(old(thread)@),
                operand(old(thread)@, 0),
            ),
        ),
{
    let mut frame = thread.pop_frame();
    let index = frame.read_u8();
    let value = frame.operand_stack.pop().as_reference();
    frame.local_vars.store_value(index as u16, Value::Reference(value));
    thread.push_frame(frame);
}

/// `iload`: push the int in the local whose index follows the opcode.
pub fn iload(thread: &mut Thread)
    requires
        has_code(old(thread)@, 1),
        code_index(old(thread)@) < current(old(thread)@).locals.len(),
        current(old(thread)@).locals[code_index(old(thread)@)] is Int,
    ensures
        final(thread).spec_reference() == old(thread).spec_reference(),
        final(thread)@ == with_top(
            old(thread)@,
            load(FrameModel { pc: current(old(thread)@).pc + 1, ..current(old(thread)@) }, code_index(old(thread)@)),
        ),
{
    let mut frame = thread.pop_frame();
    let index = frame.read_u8();
    let value = frame.local_vars.load_cat_one(index as u16).as_int();
    frame.operand_stack.push(Value::Int(value));
    thread.push_frame(frame);
}

/// `aload`: push the reference in the local whose index follows the opcode.
pub fn aload(thread: &mut Thread)
    requires
        has_code(old(thread)@, 1),
        code_index(old(thread)@) < current(old(thread)@).locals.len(),
        current(old(thread)@).locals[code_index(old(thread)@)] is Reference,
    ensures
        final(thread).spec_reference() == old(thread).spec_reference(),
        final(thread)@ == with_top(
            old(thread)@,
            load(FrameModel { pc: current(old(thread)@).pc + 1, ..current(old(thread)@) }, code_index(old(thread)@)),
        ),
{
    let mut frame = thread.pop_frame();
    let index = frame.read_u8();
    let value = frame.local_vars.load_cat_one(index as u16).as_reference();
    frame.operand_stack.push(Value::Reference(value));
    thread.push_frame(frame);
}

} // verus!
