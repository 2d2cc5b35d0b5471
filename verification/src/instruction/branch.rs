//! Jumps within a method's code: unconditional, and on comparisons of ints and references.
//!
//! Each reads a signed 16-bit offset after its opcode; the target is that offset from the
//! opcode's own position.

use vstd::prelude::*;

use crate::binary::be16;
use crate::instruction::{current, has_code, int_operand, ints_on_top, operand, reference_operand};
use crate::thread::{Frame, FrameModel, Thread, with_top};

verus! {

/// The offset read by a jump whose opcode precedes `f.pc`.
pub open spec fn jump_offset(f: FrameModel) -> i16 {
    be16(f.code, f.pc) as i16
}

/// The program counter after a jump taken by the instruction whose opcode precedes `pc`:
/// the opcode's position plus the offset, as a machine-sized index.
pub open spec fn branch_target(pc: int, offset: i16) -> int {
    ((pc - 1 + offset) as usize) as int
}

/// The current frame after a jump instruction that pops `pops` operands and jumps when
/// `taken`.
pub open spec fn jump(f: FrameModel, pops: int, taken: bool) -> FrameModel {
    FrameModel {
        pc: if taken { branch_target(f.pc, jump_offset(f)) } else { f.pc + 2 },
        stack: f.stack.subrange(0, f.stack.len() - pops),
        ..f
    }
}

/// Whether the two operands on top of the current frame are references.
pub open spec fn references_on_top(t: Seq<FrameModel>) -> bool {
    &&& t.len() > 0
    &&& current(t).stack.len() >= 2
    &&& operand(t, 0) is Reference
    &&& operand(t, 1) is Reference
}

/// Whether the operand on top of the current frame is a reference.
pub open spec fn reference_on_top(t: Seq<FrameModel>) -> bool {
    &&& t.len() > 0
    &&& current(t).stack.len() >= 1
    &&& operand(t, 0) is Reference
}

/// Read the offset after the opcode and move the program counter to the jump's target when
/// `taken`.
fn read_and_jump(frame: &mut Frame, taken: bool)
    requires
        old(frame).pc + 2 <= old(frame).code@.len(),
    ensures
        final(frame)@ == (FrameModel {
            pc: if taken { branch_target(old(frame)@.pc, jump_offset(old(frame)@)) } else { old(frame)@.pc + 2 },
            ..old(frame)@
        }),
{
    let offset = frame.read_i16();
    if taken {
        let target: i128 = frame.pc as i128 - 3 + offset as i128;
        frame.pc = target as usize;
    }
}

/// Take the current frame off the thread and pop its two int operands: the one pushed first
/// comes first.
fn take_two_ints(thread: &mut Thread) -> (res: (Frame, i32, i32))
    requires
        ints_on_top(old(thread)@, 2),
    ensures
        final(thread).spec_reference() == old(thread).spec_reference(),
        final(thread)@ == old(thread)@.drop_last(),
        res.0@ == (FrameModel {
            stack: current(old(thread)@).stack.subrange(0, current(old(thread)@).stack.len() - 2),
            ..current(old(thread)@)
        }),
        res.1 == int_operand(old(thread)@, 1),
        res.2 == int_operand(old(thread)@, 0),
{
    let ghost t = thread@;
    assert(operand(t, 0) is Int && operand(t, 1) is Int);
    let mut frame = thread.pop_frame();
    let value2 = frame.operand_stack.pop().as_int();
    let value1 = frame.operand_stack.pop().as_int();
    proof {
        assert(frame@.stack =~= current(t).stack.subrange(0, current(t).stack.len() - 2));
    }
    (frame, value1.0, value2.0)
}

/// Take the current frame off the thread and pop its int operand.
fn take_int(thread: &mut Thread) -> (res: (Frame, i32))
    requires
        ints_on_top(old(thread)@, 1),
    ensures
        final(thread).spec_reference() == old(thread).spec_reference(),
        final(thread)@ == old(thread)@.drop_last(),
        res.0@ == (FrameModel {
            stack: current(old(thread)@).stack.subrange(0, current(old(thread)@).stack.len() - 1),
            ..current(old(thread)@)
        }),
        res.1 == int_operand(old(thread)@, 0),
{
    let ghost t = thread@;
    assert(operand(t, 0) is Int);
    let mut frame = thread.pop_frame();
    let value = frame.operand_stack.pop().as_int();
    proof {
        assert(frame@.stack =~= current(t).stack.subrange(0, current(t).stack.len() - 1));
    }
    (frame, value.0)
}

/// Take the current frame off the thread and pop its reference operand.
fn take_reference(thread: &mut Thread) -> (res: (Frame, u32))
    requires
        reference_on_top(old(thread)@),
    ensures
        final(thread).spec_reference() == old(thread).spec_reference(),
        final(thread)@ == old(thread)@.drop_last(),
        res.0@ == (FrameModel {
            stack: current(old(thread)@).stack.subrange(0, current(old(thread)@).stack.len() - 1),
            ..current(old(thread)@)
        }),
        res.1 == reference_operand(old(thread)@, 0),
{
    let ghost t = thread@;
    let mut frame = thread.pop_frame();
    let value = frame.operand_stack.pop().as_reference();
    proof {
        assert(frame@.stack =~= current(t).stack.subrange(0, current(t).stack.len() - 1));
    }
    (frame, value.0)
}

/// `if_icmpge`: jump when the int below the top is at least the int on top.
pub fn if_int_cmp_ge(thread: &mut Thread)
    requires
        ints_on_top(old(thread)@, 2),
        has_code(old(thread)@, 2),
    ensures
        final(thread).spec_reference() == old(thread).spec_reference(),
        final(thread)@ == with_top(
            old(thread)@,
            jump(current(old(thread)@), 2, int_operand(old(thread)@, 1) >= int_operand(old(thread)@, 0)),
        ),
{
    let (mut frame, value1, value2) = take_two_ints(thread);
    read_and_jump(&mut frame, value1 >= value2);
    thread.push_frame(frame);
}

/// `if_icmple`: jump when the int below the top is at most the int on top.
pub fn if_int_cmp_le(thread: &mut Thread)
    requires
        ints_on_top(old(thread)@, 2),
        has_code(old(thread)@, 2),
    ensures
        final(thread).spec_reference() == old(thread).spec_reference(),
        final(thread)@ == with_top(
            old(thread)@,
            jump(current(old(thread)@), 2, int_operand(old(thread)@, 1) <= int_operand(old(thread)@, 0)),
        ),
{
    let (mut frame, value1, value2) = take_two_ints(thread);
    read_and_jump(&mut frame, value1 <= value2);
    thread.push_frame(frame);
}

/// `if_icmplt`: jump when the int below the top is less than the int on top.
pub fn if_int_cmp_lt(thread: &mut Thread)
    requires
        ints_on_top(old(thread)@, 2),
        has_code(old(thread)@, 2),
    ensures
        final(thread).spec_reference() == old(thread).spec_reference(),
        final(thread)@ == with_top(
            old(thread)@,
            jump(current(old(thread)@), 2, int_operand(old(thread)@, 1) < int_operand(old(thread)@, 0)),
        ),
{
    let (mut frame, value1, value2) = take_two_ints(thread);
    read_and_jump(&mut frame, value1 < value2);
    thread.push_frame(frame);
}

/// `if_icmpne`: jump when the two ints on top differ.
pub fn if_int_cmp_ne(thread: &mut Thread)
    requires
        ints_on_top(old(thread)@, 2),
        has_code(old(thread)@, 2),
    ensures
        final(thread).spec_reference() == old(thread).spec_reference(),
        final(thread)@ == with_top(
            old(thread)@,
            jump(current(old(thread)@), 2, int_operand(old(thread)@, 1) != int_operand(old(thread)@, 0)),
        ),
{
    let (mut frame, value1, value2) = take_two_ints(thread);
    read_and_jump(&mut frame, value1 != value2);
    thread.push_frame(frame);
}

/// `if_acmpne`: jump when the two references on top differ.
pub fn if_ref_cmp_ne(thread: &mut Thread)
    requires
        references_on_top(old(thread)@),
        has_code(old(thread)@, 2),
    ensures
        final(thread).spec_reference() == old(thread).spec_reference(),
        final(thread)@ == with_top(
            old(thread)@,
            jump(
                current(old(thread)@),
                2,
                reference_operand(old(thread)@, 1) != reference_operand(old(thread)@, 0),
            ),
        ),
{
    let ghost t = thread@;
    let mut frame = thread.pop_frame();
    let value2 = frame.operand_stack.pop().as_reference();
    let value1 = frame.operand_stack.pop().as_reference();
    proof {
        assert(frame@.stack =~= current(t).stack.subrange(0, current(t).stack.len() - 2));
    }
    read_and_jump(&mut frame, value1.0 != value2.0);
    thread.push_frame(frame);
}

/// `goto`: jump.
pub fn goto(thread: &mut Thread)
    requires
        has_code(old(thread)@, 2),
    ensures
        final(thread).spec_reference() == old(thread).spec_reference(),
        final(thread)@ == with_top(old(thread)@, jump(current(old(thread)@), 0, true)),
{
    let ghost t = thread@;
    let mut frame = thread.pop_frame();
    proof {
        assert(frame@.stack =~= current(t).stack.subrange(0, current(t).stack.len() - 0));
    }
    read_and_jump(&mut frame, true);
    thread.push_frame(frame);
}

/// `ifeq`: jump when the int on top is zero.
pub fn if_eq(thread: &mut Thread)
    requires
        ints_on_top(old(thread)@, 1),
        has_code(old(thread)@, 2),
    ensures
        final(thread).spec_reference() == old(thread).spec_reference(),
        final(thread)@ == with_top(
            old(thread)@,
            jump(current(old(thread)@), 1, int_operand(old(thread)@, 0) == 0),
        ),
{
    let (mut frame, value) = take_int(thread);
    read_and_jump(&mut frame, value == 0);
    thread.push_frame(frame);
}

/// `iflt`: jump when the int on top is negative.
pub fn if_lt(thread: &mut Thread)
    requires
        ints_on_top(old(thread)@, 1),
        has_code(old(thread)@, 2),
    ensures
        final(thread).spec_reference() == old(thread).spec_reference(),
        final(thread)@ == with_top(
            old(thread)@,
            jump(current(old(thread)@), 1, int_operand(old(thread)@, 0) < 0),
        ),
{
    let (mut frame, value) = take_int(thread);
    read_and_jump(&mut frame, value < 0);
    thread.push_frame(frame);
}

/// `ifne`: jump when the int on top is not zero.
pub fn if_ne(thread: &mut Thread)
    requires
        ints_on_top(old(thread)@, 1),
        has_code(old(thread)@, 2),
    ensures
        final(thread).spec_reference() == old(thread).spec_reference(),
        final(thread)@ == with_top(
            old(thread)@,
            jump(current(old(thread)@), 1, int_operand(old(thread)@, 0) != 0),
        ),
{
    let (mut frame, value) = take_int(thread);
    read_and_jump(&mut frame, value != 0);
    thread.push_frame(frame);
}

/// `ifnull`: jump when the reference on top is null.
pub fn if_null(thread: &mut Thread)
    requires
        reference_on_top(old(thread)@),
        has_code(old(thread)@, 2),
    ensures
        final(thread).spec_reference() == old(thread).spec_reference(),
        final(thread)@ == with_top(
            old(thread)@,
            jump(current(old(thread)@), 1, reference_operand(old(thread)@, 0) == 0),
        ),
{
    let (mut frame, value) = take_reference(thread);
    read_and_jump(&mut frame, value == 0);
    thread.push_frame(frame);
}

/// `ifnonnull`: jump when the reference on top is not null.
pub fn if_non_null(thread: &mut Thread)
    requires
        reference_on_top(old(thread)@),
        has_code(old(thread)@, 2),
    ensures
        final(thread).spec_reference() == old(thread).spec_reference(),
        final(thread)@ == with_top(
            old(thread)@,
            jump(current(old(thread)@), 1, reference_operand(old(thread)@, 0) != 0),
        ),
{
    let (mut frame, value) = take_reference(thread);
    read_and_jump(&mut frame, value != 0);
    thread.push_frame(frame);
}

} // verus!
