//! Arithmetic and bitwise instructions on ints and longs.
//!
//! The float instruction `fmul` computes in floating point, which this library does not
//! hold; it is carried out around the library, on the bits this library keeps.

use vstd::prelude::*;

use crate::instruction::{
    current,
    has_code,
    int_operand,
    ints_on_top,
    long_operand,
    operand,
    pop_operands,
    replace_operands,
    wrap_i32,
    wrap_i64,
};
use crate::java::{Int, Long, Value};
use crate::thread::{Frame, FrameModel, Thread, with_top};

verus! {

/// Whether the two operands on top of the current frame are longs.
pub open spec fn longs_on_top(t: Seq<FrameModel>) -> bool {
    &&& t.len() > 0
    &&& current(t).stack.len() >= 2
    &&& operand(t, 0) is Long
    &&& operand(t, 1) is Long
}

/// The frames after an instruction that replaces the two operands on top by `v`.
pub open spec fn binary_result(t: Seq<FrameModel>, v: Value) -> Seq<FrameModel> {
    with_top(t, replace_operands(current(t), 2, v))
}

/// The frames after an instruction that replaces the operand on top by `v`.
pub open spec fn unary_result(t: Seq<FrameModel>, v: Value) -> Seq<FrameModel> {
    with_top(t, replace_operands(current(t), 1, v))
}

/// Take the current frame off the thread and pop its two int operands: the one pushed first
/// comes first.
fn take_int_operands(thread: &mut Thread) -> (res: (Frame, i32, i32))
    requires
        ints_on_top(old(thread)@, 2),
    ensures
        final(thread).spec_reference() == old(thread).spec_reference(),
        final(thread)@ == old(thread)@.drop_last(),
        res.0@ == pop_operands(current(old(thread)@), 2),
        res.1 == int_operand(old(thread)@, 1),
        res.2 == int_operand(old(thread)@, 0),
{
    let ghost t = thread@;
    assert(operand(t, 0) is Int && operand(t, 1) is Int);
    let mut frame = thread.pop_frame();
    let value2 = frame.operand_stack.pop().as_int();
    let value1 = frame.operand_stack.pop().as_int();
    proof {
        assert(frame@.stack =~= current(t).stack.subrange(0, current(t).stack.len() - 2));
    }
    (frame, value1.0, value2.0)
}

/// Take the current frame off the thread and pop its two long operands: the one pushed first
/// comes first.
fn take_long_operands(thread: &mut Thread) -> (res: (Frame, i64, i64))
    requires
        longs_on_top(old(thread)@),
    ensures
        final(thread).spec_reference() == old(thread).spec_reference(),
        final(thread)@ == old(thread)@.drop_last(),
        res.0@ == pop_operands(current(old(thread)@), 2),
        res.1 == long_operand(old(thread)@, 1),
        res.2 == long_operand(old(thread)@, 0),
{
    let ghost t = thread@;
    let mut frame = thread.pop_frame();
    let value2 = frame.operand_stack.pop().as_long();
    let value1 = frame.operand_stack.pop().as_long();
    proof {
        assert(frame@.stack =~= current(t).stack.subrange(0, current(t).stack.len() - 2));
    }
    (frame, value1.0, value2.0)
}

/// Put `frame` back as the current frame, with `v` pushed on its operand stack.
fn put_back(thread: &mut Thread, frame: Frame, v: Value)
    ensures
        final(thread).spec_reference() == old(thread).spec_reference(),
        final(thread)@ == old(thread)@.push(crate::instruction::push_operand(frame@, v)),
{
    let mut frame = frame;
    frame.operand_stack.push(v);
    thread.push_frame(frame);
}

/// `ineg`: negate the int on top, wrapping around: the most negative int is its own negation.
pub fn i_neg(thread: &mut Thread)
    requires
        ints_on_top(old(thread)@, 1),
    ensures
        final(thread).spec_reference() == old(thread).spec_reference(),
        final(thread)@ == unary_result(old(thread)@, Value::Int(Int(wrap_i32(-int_operand(old(thread)@, 0))))),
{
    let ghost t = thread@;
    assert(operand(t, 0) is Int);
    let mut frame = thread.pop_frame();
    let value = frame.operand_stack.pop().as_int();
    let result = if value.0 == i32::MIN {
        i32::MIN
    } else {
        -value.0
    };
    proof {
        let x: int = -(value.0 as int);
        if value.0 == i32::MIN {
            assert(x % 0x1_0000_0000 == 0x8000_0000);
        } else if x >= 0 {
            assert(x % 0x1_0000_0000 == x);
        } else {
            assert(x % 0x1_0000_0000 == x + 0x1_0000_0000);
        }
        assert(result == wrap_i32(x));
        assert(frame@.stack =~= current(t).stack.subrange(0, current(t).stack.len() - 1));
    }
    put_back(thread, frame, Value::Int(Int(result)));
}

/// `iadd`: add the two ints on top, wrapping around on overflow.
pub fn i_add(thread: &mut Thread)
    requires
        ints_on_top(old(thread)@, 2),
    ensures
        final(thread).spec_reference() == old(thread).spec_reference(),
        final(thread)@ == binary_result(
            old(thread)@,
            Value::Int(Int(wrap_i32(int_operand(old(thread)@, 1) + int_operand(old(thread)@, 0)))),
        ),
{
    let (frame, value1, value2) = take_int_operands(thread);
    let result = value1.wrapping_add(value2);
    put_back(thread, frame, Value::Int(Int(result)));
}

/// `ladd`: add the two longs on top, wrapping around on overflow.
pub fn l_add(thread: &mut Thread)
    requires
        longs_on_top(old(thread)@),
    ensures
        final(thread).spec_reference() == old(thread).spec_reference(),
        final(thread)@ == binary_result(
            old(thread)@,
            Value::Long(Long(wrap_i64(long_operand(old(thread)@, 1) + long_operand(old(thread)@, 0)))),
        ),
{
    let (frame, value1, value2) = take_long_operands(thread);
    let result = value1.wrapping_add(value2);
    put_back(thread, frame, Value::Long(Long(result)));
}

/// `isub`: subtract the int on top from the one below it, wrapping around on overflow.
pub fn i_sub(thread: &mut Thread)
    requires
        ints_on_top(old(thread)@, 2),
    ensures
        final(thread).spec_reference() == old(thread).spec_reference(),
        final(thread)@ == binary_result(
            old(thread)@,
            Value::Int(Int(wrap_i32(int_operand(old(thread)@, 1) - int_operand(old(thread)@, 0)))),
        ),
{
    let (frame, value1, value2) = take_int_operands(thread);
    let result = value1.wrapping_sub(value2);
    put_back(thread, frame, Value::Int(Int(result)));
}

/// `lsub`: subtract the long on top from the one below it, wrapping around on overflow.
pub fn l_sub(thread: &mut Thread)
    requires
        longs_on_top(old(thread)@),
    ensures
        final(thread).spec_reference() == old(thread).spec_reference(),
        final(thread)@ == binary_result(
            old(thread)@,
            Value::Long(Long(wrap_i64(long_operand(old(thread)@, 1) - long_operand(old(thread)@, 0)))),
        ),
{
    let (frame, value1, value2) = take_long_operands(thread);
    let result = value1.wrapping_sub(value2);
    put_back(thread, frame, Value::Long(Long(result)));
}

/// `imul`: multiply the two ints on top, wrapping around on overflow.
pub fn i_mul(thread: &mut Thread)
    requires
        ints_on_top(old(thread)@, 2),
    ensures
        final(thread).spec_reference() == old(thread).spec_reference(),
        final(thread)@ == binary_result(
            old(thread)@,
            Value::Int(Int(wrap_i32(int_operand(old(thread)@, 1) * int_operand(old(thread)@, 0)))),
        ),
{
    let (frame, value1, value2) = take_int_operands(thread);
    let result = value1.wrapping_mul(value2);
    put_back(thread, frame, Value::Int(Int(result)));
}

/// The remainder of truncating division of `a` by `b`: its magnitude is that of `a` modulo
/// that of `b`, and its sign that of `a`.
pub open spec fn trunc_rem(a: int, b: int) -> int {
    if a == 0 {
        0
    } else if a > 0 && b > 0 {
        a % b
    } else if a < 0 && b < 0 {
        -((-a) % (-b))
    } else if a < 0 {
        -((-a) % b)
    } else {
        a % (-b)
    }
}

/// `iinc`: add the signed byte constant that follows the opcode to the int local variable
/// whose index precedes it, wrapping around on overflow.
pub fn i_inc(thread: &mut Thread)
    requires
        has_code(old(thread)@, 2),
        current(old(thread)@).code[current(old(thread)@).pc] < current(old(thread)@).locals.len(),
        current(old(thread)@).locals[current(old(thread)@).code[current(old(thread)@).pc] as int] is Int,
    ensures
        final(thread).spec_reference() == old(thread).spec_reference(),
        ({
            let f = current(old(thread)@);
            let index = f.code[f.pc] as int;
            let constant = f.code[f.pc + 1] as i8;
            let value = f.locals[index]->Int_0.0;
            final(thread)@ == with_top(
                old(thread)@,
                FrameModel {
                    pc: f.pc + 2,
                    locals: f.locals.update(index, Value::Int(Int(wrap_i32(value + constant)))),
                    ..f
                },
            )
        }),
{
    let ghost f = current(thread@);
    let mut frame = thread.pop_frame();
    let index = frame.read_u8();
    let constant = frame.read_i8();

    let value = frame.local_vars.load_cat_one(index as u16).as_int();
    let value = value.0.wrapping_add(constant as i32);

    frame.local_vars.store_value(index as u16, Value::Int(Int(value)));
    proof {
        assert(frame@ =~= FrameModel {
            pc: f.pc + 2,
            locals: f.locals.update(index as int, Value::Int(Int(wrap_i32(f.locals[index as int]->Int_0.0 + constant)))),
            ..f
        });
    }
    thread.push_frame(frame);
}

/// `ixor`: the bitwise exclusive or of the two ints on top.
pub fn ixor(thread: &mut Thread)
    requires
        ints_on_top(old(thread)@, 2),
    ensures
        final(thread).spec_reference() == old(thread).spec_reference(),
        final(thread)@ == binary_result(
            old(thread)@,
            Value::Int(Int(int_operand(old(thread)@, 1) ^ int_operand(old(thread)@, 0))),
        ),
{
    let (frame, value1, value2) = take_int_operands(thread);
    let result = value1 ^ value2;
    put_back(thread, frame, Value::Int(Int(result)));
}

/// `ior`: the bitwise or of the two ints on top.
pub fn ior(thread: &mut Thread)
    requires
        ints_on_top(old(thread)@, 2),
    ensures
        final(thread).spec_reference() == old(thread).spec_reference(),
        final(thread)@ == binary_result(
            old(thread)@,
            Value::Int(Int(int_operand(old(thread)@, 1) | int_operand(old(thread)@, 0))),
        ),
{
    let (frame, value1, value2) = take_int_operands(thread);
    let result = value1 | value2;
    put_back(thread, frame, Value::Int(Int(result)));
}

/// `iand`: the bitwise and of the two ints on top.
pub fn iand(thread: &mut Thread)
    requires
        ints_on_top(old(thread)@, 2),
    ensures
        final(thread).spec_reference() == old(thread).spec_reference(),
        final(thread)@ == binary_result(
            old(thread)@,
            Value::Int(Int(int_operand(old(thread)@, 1) & int_operand(old(thread)@, 0))),
        ),
{
    let (frame, value1, value2) = take_int_operands(thread);
    let result = value1 & value2;
    put_back(thread, frame, Value::Int(Int(result)));
}

/// `land`: the bitwise and of the two longs on top.
pub fn land(thread: &mut Thread)
    requires
        longs_on_top(old(thread)@),
    ensures
        final(thread).spec_reference() == old(thread).spec_reference(),
        final(thread)@ == binary_result(
            old(thread)@,
            Value::Long(Long(long_operand(old(thread)@, 1) & long_operand(old(thread)@, 0))),
        ),
{
    let (frame, value1, value2) = take_long_operands(thread);
    let result = value1 & value2;
    put_back(thread, frame, Value::Long(Long(result)));
}

/// The shift distance of an int shift: the low five bits of `value`.
pub open spec fn int_shift(value: i32) -> u32 {
    (value & 0x1f) as u32
}

/// The shift distance of a long shift: the low six bits of `value`.
pub open spec fn long_shift(value: i32) -> u32 {
    (value & 0x3f) as u32
}

/// `ishl`: shift the int below the top left by the low five bits of the int on top.
pub fn ishl(thread: &mut Thread)
    requires
        ints_on_top(old(thread)@, 2),
    ensures
        final(thread).spec_reference() == old(thread).spec_reference(),
        final(thread)@ == binary_result(
            old(thread)@,
            Value::Int(Int(int_operand(old(thread)@, 1) << int_shift(int_operand(old(thread)@, 0)))),
        ),
{
    let (frame, value1, value2) = take_int_operands(thread);
    let masked = value2 & 0x1f;
    assert(0 <= masked < 32) by (bit_vector)
        requires
            masked == value2 & 0x1f,
    ;
    let s = masked as u32;
    let result = value1 << s;
    put_back(thread, frame, Value::Int(Int(result)));
}

/// `ishr`: shift the int below the top right, extending its sign, by the low five bits of
/// the int on top.
pub fn ishr(thread: &mut Thread)
    requires
        ints_on_top(old(thread)@, 2),
    ensures
        final(thread).spec_reference() == old(thread).spec_reference(),
        final(thread)@ == binary_result(
            old(thread)@,
            Value::Int(Int(int_operand(old(thread)@, 1) >> int_shift(int_operand(old(thread)@, 0)))),
        ),
{
    let (frame, value1, value2) = take_int_operands(thread);
    let masked = value2 & 0x1f;
    assert(0 <= masked < 32) by (bit_vector)
        requires
            masked == value2 & 0x1f,
    ;
    let s = masked as u32;
    let result = value1 >> s;
    put_back(thread, frame, Value::Int(Int(result)));
}

/// `iushr`: shift the int below the top right, filling with zeros, by the low five bits of
/// the int on top.
pub fn iushr(thread: &mut Thread)
    requires
        ints_on_top(old(thread)@, 2),
    ensures
        final(thread).spec_reference() == old(thread).spec_reference(),
        final(thread)@ == binary_result(
            old(thread)@,
            Value::Int(Int(
                ((int_operand(old(thread)@, 1) as u32) >> int_shift(int_operand(old(thread)@, 0))) as i32,
            )),
        ),
{
    let (frame, value1, value2) = take_int_operands(thread);
    let masked = value2 & 0x1f;
    assert(0 <= masked < 32) by (bit_vector)
        requires
            masked == value2 & 0x1f,
    ;
    let s = masked as u32;
    let unsigned_value_1 = value1 as u32;
    let unsigned_result = unsigned_value_1 >> s;
    let result = unsigned_result as i32;
    put_back(thread, frame, Value::Int(Int(result)));
}

/// `lshl`: shift the long below the top left by the low six bits of the int on top.
pub fn lshl(thread: &mut Thread)
    requires
        has_operands_int_long(old(thread)@),
    ensures
        final(thread).spec_reference() == old(thread).spec_reference(),
        final(thread)@ == binary_result(
            old(thread)@,
            Value::Long(Long(long_operand(old(thread)@, 1) << long_shift(int_operand(old(thread)@, 0)))),
        ),
{
    let ghost t = thread@;
    let mut frame = thread.pop_frame();
    let value2 = frame.operand_stack.pop().as_int().0;
    let value1 = frame.operand_stack.pop().as_long().0;
    proof {
        assert(frame@.stack =~= current(t).stack.subrange(0, current(t).stack.len() - 2));
    }
    let masked = value2 & 0x3f;
    assert(0 <= masked < 64) by (bit_vector)
        requires
            masked == value2 & 0x3f,
    ;
    let s = masked as u32;
    let result = value1 << s;
    put_back(thread, frame, Value::Long(Long(result)));
}

/// Whether the operand on top is an int and the one below it a long.
pub open spec fn has_operands_int_long(t: Seq<FrameModel>) -> bool {
    &&& t.len() > 0
    &&& current(t).stack.len() >= 2
    &&& operand(t, 0) is Int
    &&& operand(t, 1) is Long
}

/// `irem`: the remainder of dividing the int below the top by the int on top, truncating
/// the quotient towards zero; the most negative int divided by -1 leaves 0. A zero divisor
/// stops the original.
pub fn irem(thread: &mut Thread)
    requires
        ints_on_top(old(thread)@, 2),
        int_operand(old(thread)@, 0) != 0,
    ensures
        final(thread).spec_reference() == old(thread).spec_reference(),
        final(thread)@ == binary_result(
            old(thread)@,
            Value::Int(Int(trunc_rem(int_operand(old(thread)@, 1) as int, int_operand(old(thread)@, 0) as int) as i32)),
        ),
{
    let (frame, value1, value2) = take_int_operands(thread);
    let result = match value1.checked_rem(value2) {
        Some(r) => r,
        None => 0,
    };
    put_back(thread, frame, Value::Int(Int(result)));
}

} // verus!
