//! Conversions between numeric types.
//!
//! `i2f` converts to floating point, which this library does not hold; it is carried out
//! around the library.

use vstd::prelude::*;

use crate::instruction::{current, int_operand, ints_on_top, operand, replace_operands};
use crate::java::{Long, Value};
use crate::thread::{Thread, with_top};

verus! {

/// `i2l`: widen the int on top to a long.
pub fn int_to_long(thread: &mut Thread)
    requires
        ints_on_top(old(thread)@, 1),
    ensures
        final(thread).spec_reference() == old(thread).spec_reference(),
        final(thread)@ == with_top(
            old(thread)@,
            replace_operands(current(old(thread)@), 1, Value::Long(Long(int_operand(old(thread)@, 0) as i64))),
        ),
{
    let ghost t = thread@;
    assert(operand(t, 0) is Int);
    let mut frame = thread.pop_frame();
    let value = frame.operand_stack.pop().as_int();
    let long = value.0 as i64;
    frame.operand_stack.push(Value::Long(Long(long)));
    proof {
        let s = current(t).stack;
        assert(frame@.stack =~= s.subrange(0, s.len() - 1).push(Value::Long(Long(long))));
    }
    thread.push_frame(frame);
}

} // verus!
