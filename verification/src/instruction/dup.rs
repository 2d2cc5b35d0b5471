//! Duplicating operands on the stack.

use vstd::prelude::*;

use crate::instruction::{current, operand};
use crate::thread::{FrameModel, Thread, with_top};

verus! {

/// The current frame with the operands `vs` pushed after removing the top `n`.
pub open spec fn restack(f: FrameModel, n: int, vs: Seq<crate::java::Value>) -> FrameModel {
    FrameModel { stack: f.stack.subrange(0, f.stack.len() - n) + vs, ..f }
}

/// `dup`: push a copy of the operand on top.
pub fn dup(thread: &mut Thread)
    requires
        old(thread)@.len() > 0,
        current(old(thread)@).stack.len() >= 1,
    ensures
        final(thread).spec_reference() == old(thread).spec_reference(),
        final(thread)@ == with_top(
            old(thread)@,
            restack(current(old(thread)@), 1, seq![operand(old(thread)@, 0), operand(old(thread)@, 0)]),
        ),
{
    let ghost t = thread@;
    let mut frame = thread.pop_frame();
    let value = frame.operand_stack.pop();
    frame.operand_stack.push(value);
    frame.operand_stack.push(value);
    proof {
        let s = current(t).stack;
        assert(frame@.stack =~= s.subrange(0, s.len() - 1) + seq![operand(t, 0), operand(t, 0)]);
    }
    thread.push_frame(frame);
}

/// `dup2`: with a first-category operand on top, push copies of the two operands on top, in
/// the same order; with a second-category operand on top, push a copy of it.
pub fn dup2(thread: &mut Thread)
    requires
        old(thread)@.len() > 0,
        current(old(thread)@).stack.len() >= 1,
        operand(old(thread)@, 0).spec_category() == 1 ==> current(old(thread)@).stack.len() >= 2,
    ensures
        final(thread).spec_reference() == old(thread).spec_reference(),
        final(thread)@ == with_top(
            old(thread)@,
            if operand(old(thread)@, 0).spec_category() == 1 {
                restack(
                    current(old(thread)@),
                    2,
                    seq![
                        operand(old(thread)@, 1),
                        operand(old(thread)@, 0),
                        operand(old(thread)@, 1),
                        operand(old(thread)@, 0),
                    ],
                )
            } else {
                restack(current(old(thread)@), 1, seq![operand(old(thread)@, 0), operand(old(thread)@, 0)])
            },
        ),
{
    let ghost t = thread@;
    let mut frame = thread.pop_frame();
    let value = frame.operand_stack.pop();
    if value.category() == 1 {
        let value1 = value;
        let value2 = frame.operand_stack.pop();

        frame.operand_stack.push(value2);
        frame.operand_stack.push(value1);
        frame.operand_stack.push(value2);
        frame.operand_stack.push(value1);
        proof {
            let s = current(t).stack;
            assert(frame@.stack =~= s.subrange(0, s.len() - 2) + seq![
                operand(t, 1),
                operand(t, 0),
                operand(t, 1),
                operand(t, 0),
            ]);
        }
    } else {
        frame.operand_stack.push(value);
        frame.operand_stack.push(value);
        proof {
            let s = current(t).stack;
            assert(frame@.stack =~= s.subrange(0, s.len() - 1) + seq![operand(t, 0), operand(t, 0)]);
        }
    }
    thread.push_frame(frame);
}

/// `dup_x1`: insert a copy of the operand on top below the two operands on top.
pub fn dup_x1(thread: &mut Thread)
    requires
        old(thread)@.len() > 0,
        current(old(thread)@).stack.len() >= 2,
    ensures
        final(thread).spec_reference() == old(thread).spec_reference(),
        final(thread)@ == with_top(
            old(thread)@,
            restack(
                current(old(thread)@),
                2,
                seq![operand(old(thread)@, 0), operand(old(thread)@, 1), operand(old(thread)@, 0)],
            ),
        ),
{
    let ghost t = thread@;
    let mut frame = thread.pop_frame();
    let value1 = frame.operand_stack.pop();
    let value2 = frame.operand_stack.pop();

    frame.operand_stack.push(value1);
    frame.operand_stack.push(value2);
    frame.operand_stack.push(value1);
    proof {
        let s = current(t).stack;
        assert(frame@.stack =~= s.subrange(0, s.len() - 2) + seq![operand(t, 0), operand(t, 1), operand(t, 0)]);
    }
    thread.push_frame(frame);
}

} // verus!
