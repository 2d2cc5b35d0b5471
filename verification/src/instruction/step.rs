//! Running one instruction: read the opcode at the current frame's program counter, check
//! that the state is one the instruction can run on, and run it.
//!
//! An instruction that cannot run, because its operands, locals, code or constant pool entry
//! are not what it needs, is reported as malformed code and changes nothing. One that needs a
//! class loaded or initialized, or a monitor released, changes nothing either: the caller
//! does what it reports and runs it again.

use vstd::prelude::*;

use crate::binary::be16;
use crate::instruction::array::{indexes_array, loaded, popped, replaced, stores_into_array, after_store};
use crate::instruction::branch::{jump, reference_on_top, references_on_top};
use crate::instruction::constant::pushed;
use crate::instruction::dup::restack;
use crate::instruction::locals::{can_store, code_index, load, store};
use crate::instruction::math::binary_result;
use crate::instruction::{
    branch,
    constant,
    current,
    dup,
    has_code,
    has_operands,
    int_operand,
    ints_on_top,
    locals,
    math,
    operand,
    reference_operand,
    stack,
    wrap_i32,
};
use crate::heap::allocator::{ArrayModel, ArrayType, storable, zero_element};
use crate::heap::{Heap, HeapedModel, array_at, heap_wf, is_array};
use crate::instruction::array::{self, primitive_array_type};
use crate::java::{Int, Long, Reference, Value};
use crate::thread::{Frame, FrameModel, Thread, with_top};

verus! {

/// The value `depth` places below the top of the current frame's operand stack, if it has
/// that many.
pub fn peek_operand(thread: &Thread, depth: usize) -> (res: Option<Value>)
    requires
        thread@.len() > 0,
    ensures
        match res {
            Some(v) => has_operands(thread@, depth + 1) && v == operand(thread@, depth as int),
            None => !has_operands(thread@, depth + 1),
        },
{
    let frame = thread.frame(thread.depth() - 1);
    let n = frame.operand_stack.len();
    if depth < n {
        Some(frame.operand_stack.peek(depth))
    } else {
        None
    }
}

/// The value in local `index` of the current frame, if it has that local.
pub fn local_value(thread: &Thread, index: usize) -> (res: Option<Value>)
    requires
        thread@.len() > 0,
    ensures
        match res {
            Some(v) => index < current(thread@).locals.len() && v == current(thread@).locals[index as int],
            None => index >= current(thread@).locals.len(),
        },
{
    let frame = thread.frame(thread.depth() - 1);
    if index < frame.local_vars.len() {
        Some(frame.local_vars.get(index))
    } else {
        None
    }
}

/// Whether the current frame has `n` more bytes of code to read.
pub fn code_left(thread: &Thread, n: usize) -> (b: bool)
    requires
        thread@.len() > 0,
    ensures
        b == has_code(thread@, n as int),
{
    let frame = thread.frame(thread.depth() - 1);
    frame.pc <= frame.code.len() && frame.code.len() - frame.pc >= n
}

/// The byte of code `k` places after the program counter of the current frame, which has it.
fn code_byte(thread: &Thread, k: usize) -> (b: u8)
    requires
        thread@.len() > 0,
        has_code(thread@, k as int + 1),
    ensures
        b == current(thread@).code[current(thread@).pc + k],
{
    let frame = thread.frame(thread.depth() - 1);
    let _length = frame.code.len();
    frame.code[frame.pc + k]
}

/// Whether the `n` operands on top are ints, for one or two operands.
fn ints_check(thread: &Thread, n: usize) -> (b: bool)
    requires
        thread@.len() > 0,
        n == 1 || n == 2,
    ensures
        b == ints_on_top(thread@, n as int),
{
    let top = match peek_operand(thread, 0) {
        Some(Value::Int(_)) => true,
        _ => false,
    };
    if n == 1 {
        proof {
            if top {
                assert forall|d: int| 0 <= d < 1 implies (#[trigger] operand(thread@, d)) is Int by {
                    assert(d == 0);
                }
            }
            if ints_on_top(thread@, 1) {
                assert(operand(thread@, 0) is Int);
            }
        }
        top
    } else {
        let below = match peek_operand(thread, 1) {
            Some(Value::Int(_)) => true,
            _ => false,
        };
        proof {
            if top && below {
                assert forall|d: int| 0 <= d < 2 implies (#[trigger] operand(thread@, d)) is Int by {
                    assert(d == 0 || d == 1);
                }
            }
            if ints_on_top(thread@, 2) {
                assert(operand(thread@, 0) is Int);
                assert(operand(thread@, 1) is Int);
            }
        }
        top && below
    }
}

/// Whether the operand on top is a reference.
fn reference_check(thread: &Thread) -> (b: bool)
    requires
        thread@.len() > 0,
    ensures
        b == reference_on_top(thread@),
{
    match peek_operand(thread, 0) {
        Some(Value::Reference(_)) => true,
        _ => false,
    }
}

/// Whether the two operands on top are references.
fn references_check(thread: &Thread) -> (b: bool)
    requires
        thread@.len() > 0,
    ensures
        b == references_on_top(thread@),
{
    let top = match peek_operand(thread, 0) {
        Some(Value::Reference(_)) => true,
        _ => false,
    };
    let below = match peek_operand(thread, 1) {
        Some(Value::Reference(_)) => true,
        _ => false,
    };
    top && below
}

/// Whether the opcode `op` only acts on the thread's current frame.
pub open spec fn frame_op(op: u8) -> bool {
    ||| 0x01 <= op <= 0x0A
    ||| op == 0x11 || op == 0x15 || op == 0x19
    ||| 0x1A <= op <= 0x1D
    ||| 0x2A <= op <= 0x2D
    ||| op == 0x36 || op == 0x3A
    ||| 0x3B <= op <= 0x3E
    ||| 0x4B <= op <= 0x4E
    ||| op == 0x57 || op == 0x59 || op == 0x60 || op == 0x64 || op == 0x84
    ||| op == 0x99 || op == 0x9A || op == 0x9B
    ||| op == 0xA0 || op == 0xA1 || op == 0xA2 || op == 0xA4 || op == 0xA6 || op == 0xA7
    ||| op == 0xC6 || op == 0xC7
}

/// The current frame past the byte after the opcode.
pub open spec fn past_index(f: FrameModel) -> FrameModel {
    FrameModel { pc: f.pc + 1, ..f }
}

/// Whether the instruction `op`, which acts on the current frame only, can run on the frames
/// `t`, whose program counter is past the opcode.
pub open spec fn frame_ready(op: u8, t: Seq<FrameModel>) -> bool {
    let f = current(t);
    if 0x01 <= op <= 0x0A {
        t.len() > 0
    } else if op == 0x11 || op == 0xA7 {
        has_code(t, 2)
    } else if op == 0x15 || op == 0x19 {
        &&& has_code(t, 1)
        &&& code_index(t) < f.locals.len()
        &&& if op == 0x15 { f.locals[code_index(t)] is Int } else { f.locals[code_index(t)] is Reference }
    } else if 0x1A <= op <= 0x1D {
        t.len() > 0 && op - 0x1A < f.locals.len() && f.locals[op - 0x1A] is Int
    } else if 0x2A <= op <= 0x2D {
        t.len() > 0 && op - 0x2A < f.locals.len() && f.locals[op - 0x2A] is Reference
    } else if op == 0x36 || op == 0x3A {
        &&& has_code(t, 1)
        &&& can_store(t, code_index(t))
        &&& if op == 0x36 { operand(t, 0) is Int } else { operand(t, 0) is Reference }
    } else if 0x3B <= op <= 0x3E {
        can_store(t, op - 0x3B)
    } else if 0x4B <= op <= 0x4E {
        can_store(t, op - 0x4B) && operand(t, 0) is Reference
    } else if op == 0x57 {
        has_operands(t, 1) && operand(t, 0).spec_category() == 1
    } else if op == 0x59 {
        has_operands(t, 1)
    } else if op == 0x60 || op == 0x64 {
        ints_on_top(t, 2)
    } else if op == 0x84 {
        &&& has_code(t, 2)
        &&& f.code[f.pc] < f.locals.len()
        &&& f.locals[f.code[f.pc] as int] is Int
    } else if op == 0x99 || op == 0x9A || op == 0x9B {
        ints_on_top(t, 1) && has_code(t, 2)
    } else if op == 0xA0 || op == 0xA1 || op == 0xA2 || op == 0xA4 {
        ints_on_top(t, 2) && has_code(t, 2)
    } else if op == 0xA6 {
        references_on_top(t) && has_code(t, 2)
    } else {
        reference_on_top(t) && has_code(t, 2)
    }
}

/// The frames after the instruction `op`, which acts on the current frame only, runs on the
/// frames `t`, whose program counter is past the opcode.
pub open spec fn frame_after(op: u8, t: Seq<FrameModel>) -> Seq<FrameModel> {
    let f = current(t);
    if op == 0x01 {
        pushed(t, Value::Reference(Reference(0)))
    } else if 0x02 <= op <= 0x08 {
        pushed(t, Value::Int(Int((op - 3) as i32)))
    } else if op == 0x09 || op == 0x0A {
        pushed(t, Value::Long(Long((op - 9) as i64)))
    } else if op == 0x11 {
        with_top(t, FrameModel { pc: f.pc + 2, stack: f.stack.push(Value::Int(Int((be16(f.code, f.pc) as i16) as i32))), ..f })
    } else if op == 0x15 || op == 0x19 {
        with_top(t, load(past_index(f), code_index(t)))
    } else if 0x1A <= op <= 0x1D {
        with_top(t, load(f, op - 0x1A))
    } else if 0x2A <= op <= 0x2D {
        with_top(t, load(f, op - 0x2A))
    } else if op == 0x36 || op == 0x3A {
        with_top(t, store(past_index(f), code_index(t), operand(t, 0)))
    } else if 0x3B <= op <= 0x3E {
        with_top(t, store(f, op - 0x3B, operand(t, 0)))
    } else if 0x4B <= op <= 0x4E {
        with_top(t, store(f, op - 0x4B, operand(t, 0)))
    } else if op == 0x57 {
        with_top(t, FrameModel { stack: f.stack.drop_last(), ..f })
    } else if op == 0x59 {
        with_top(t, restack(f, 1, seq![operand(t, 0), operand(t, 0)]))
    } else if op == 0x60 {
        binary_result(t, Value::Int(Int(wrap_i32(int_operand(t, 1) + int_operand(t, 0)))))
    } else if op == 0x64 {
        binary_result(t, Value::Int(Int(wrap_i32(int_operand(t, 1) - int_operand(t, 0)))))
    } else if op == 0x84 {
        let index = f.code[f.pc] as int;
        let constant = f.code[f.pc + 1] as i8;
        with_top(
            t,
            FrameModel {
                pc: f.pc + 2,
                locals: f.locals.update(index, Value::Int(Int(wrap_i32(f.locals[index]->Int_0.0 + constant)))),
                ..f
            },
        )
    } else if op == 0x99 {
        with_top(t, jump(f, 1, int_operand(t, 0) == 0))
    } else if op == 0x9A {
        with_top(t, jump(f, 1, int_operand(t, 0) != 0))
    } else if op == 0x9B {
        with_top(t, jump(f, 1, int_operand(t, 0) < 0))
    } else if op == 0xA0 {
        with_top(t, jump(f, 2, int_operand(t, 1) != int_operand(t, 0)))
    } else if op == 0xA1 {
        with_top(t, jump(f, 2, int_operand(t, 1) < int_operand(t, 0)))
    } else if op == 0xA2 {
        with_top(t, jump(f, 2, int_operand(t, 1) >= int_operand(t, 0)))
    } else if op == 0xA4 {
        with_top(t, jump(f, 2, int_operand(t, 1) <= int_operand(t, 0)))
    } else if op == 0xA6 {
        with_top(t, jump(f, 2, reference_operand(t, 1) != reference_operand(t, 0)))
    } else if op == 0xA7 {
        with_top(t, jump(f, 0, true))
    } else if op == 0xC6 {
        with_top(t, jump(f, 1, reference_operand(t, 0) == 0))
    } else {
        with_top(t, jump(f, 1, reference_operand(t, 0) != 0))
    }
}

/// Run the jump `op` on a comparison of the two operands on top, when it can run; returns
/// whether it ran.
fn run_comparison(thread: &mut Thread, op: u8) -> (ran: bool)
    requires
        old(thread)@.len() > 0,
        op == 0xA0 || op == 0xA1 || op == 0xA2 || op == 0xA4 || op == 0xA6,
    ensures
        final(thread).spec_reference() == old(thread).spec_reference(),
        ran == frame_ready(op, old(thread)@),
        ran ==> final(thread)@ == frame_after(op, old(thread)@),
        !ran ==> final(thread)@ == old(thread)@,
{
    if op == 0xA6 {
        if !references_check(thread) || !code_left(thread, 2) {
            return false;
        }
        branch::if_ref_cmp_ne(thread);
        return true;
    }
    if !ints_check(thread, 2) || !code_left(thread, 2) {
        return false;
    }
    if op == 0xA0 {
        branch::if_int_cmp_ne(thread);
    } else if op == 0xA1 {
        branch::if_int_cmp_lt(thread);
    } else if op == 0xA2 {
        branch::if_int_cmp_ge(thread);
    } else {
        branch::if_int_cmp_le(thread);
    }
    true
}

/// Run the instruction `op`, which acts on the current frame only, when it can run; returns
/// whether it ran.
pub(crate) fn run_frame_op(thread: &mut Thread, op: u8) -> (ran: bool)
    requires
        old(thread)@.len() > 0,
        frame_op(op),
    ensures
        final(thread).spec_reference() == old(thread).spec_reference(),
        ran == frame_ready(op, old(thread)@),
        ran ==> final(thread)@ == frame_after(op, old(thread)@),
        !ran ==> final(thread)@ == old(thread)@,
{
    let ghost t = thread@;
    if 0x01 <= op && op <= 0x0A {
        if op == 0x01 {
            constant::aconst_null(thread);
        } else if op <= 0x08 {
            constant::iconst_n(thread, op as i32 - 3);
        } else {
            constant::lconst_n(thread, op as i64 - 9);
        }
        return true;
    }
    if op == 0x11 || op == 0xA7 {
        if !code_left(thread, 2) {
            return false;
        }
        if op == 0x11 {
            stack::sipush(thread);
        } else {
            branch::goto(thread);
        }
        return true;
    }
    if op == 0x15 || op == 0x19 {
        if !code_left(thread, 1) {
            return false;
        }
        let index = code_byte(thread, 0);
        let ok = match local_value(thread, index as usize) {
            Some(Value::Int(_)) => op == 0x15,
            Some(Value::Reference(_)) => op == 0x19,
            _ => false,
        };
        if !ok {
            return false;
        }
        if op == 0x15 {
            locals::iload(thread);
        } else {
            locals::aload(thread);
        }
        return true;
    }
    if 0x1A <= op && op <= 0x1D {
        let n = (op - 0x1A) as u16;
        match local_value(thread, n as usize) {
            Some(Value::Int(_)) => {},
            _ => return false,
        }
        locals::iload_n(thread, n);
        return true;
    }
    if 0x2A <= op && op <= 0x2D {
        let n = (op - 0x2A) as u16;
        match local_value(thread, n as usize) {
            Some(Value::Reference(_)) => {},
            _ => return false,
        }
        locals::aload_n(thread, n);
        return true;
    }
    if op == 0x36 || op == 0x3A {
        if !code_left(thread, 1) {
            return false;
        }
        let index = code_byte(thread, 0);
        if local_value(thread, index as usize).is_none() {
            return false;
        }
        let ok = match peek_operand(thread, 0) {
            Some(Value::Int(_)) => op == 0x36,
            Some(Value::Reference(_)) => op == 0x3A,
            _ => false,
        };
        if !ok {
            return false;
        }
        if op == 0x36 {
            locals::istore(thread);
        } else {
            locals::astore(thread);
        }
        return true;
    }
    if 0x3B <= op && op <= 0x3E {
        let n = (op - 0x3B) as u16;
        if local_value(thread, n as usize).is_none() || peek_operand(thread, 0).is_none() {
            return false;
        }
        locals::istore_n(thread, n);
        return true;
    }
    if 0x4B <= op && op <= 0x4E {
        let n = (op - 0x4B) as u16;
        if local_value(thread, n as usize).is_none() {
            return false;
        }
        match peek_operand(thread, 0) {
            Some(Value::Reference(_)) => {},
            _ => return false,
        }
        locals::astore_n(thread, n);
        return true;
    }
    if op == 0x57 || op == 0x59 {
        let top = match peek_operand(thread, 0) {
            Some(v) => v,
            None => return false,
        };
        if op == 0x57 {
            if top.category() != 1 {
                return false;
            }
            stack::pop(thread);
        } else {
            dup::dup(thread);
        }
        return true;
    }
    if op == 0x60 || op == 0x64 {
        if !ints_check(thread, 2) {
            return false;
        }
        if op == 0x60 {
            math::i_add(thread);
        } else {
            math::i_sub(thread);
        }
        return true;
    }
    if op == 0x84 {
        if !code_left(thread, 2) {
            return false;
        }
        let index = code_byte(thread, 0);
        match local_value(thread, index as usize) {
            Some(Value::Int(_)) => {},
            _ => return false,
        }
        math::i_inc(thread);
        return true;
    }
    if op == 0x99 || op == 0x9A || op == 0x9B {
        if !ints_check(thread, 1) || !code_left(thread, 2) {
            return false;
        }
        if op == 0x99 {
            branch::if_eq(thread);
        } else if op == 0x9A {
            branch::if_ne(thread);
        } else {
            branch::if_lt(thread);
        }
        return true;
    }
    if op == 0xA0 || op == 0xA1 || op == 0xA2 || op == 0xA4 || op == 0xA6 {
        return run_comparison(thread, op);
    }
    if !reference_check(thread) || !code_left(thread, 2) {
        return false;
    }
    if op == 0xC6 {
        branch::if_null(thread);
    } else {
        branch::if_non_null(thread);
    }
    true
}

/// Whether the opcode `op` acts on the current frame and the heap.
pub open spec fn heap_op(op: u8) -> bool {
    op == 0x32 || op == 0x34 || op == 0x53 || op == 0x55 || op == 0xBC || op == 0xBE
}

/// Whether the instruction `op`, which acts on the current frame and the heap, can run on the
/// frames `t` and the heap `h`.
pub open spec fn heap_ready(op: u8, t: Seq<FrameModel>, h: Map<u32, HeapedModel>) -> bool {
    let f = current(t);
    if op == 0x32 {
        indexes_array(t, h)
    } else if op == 0x34 {
        indexes_array(t, h) && array_at(h, reference_operand(t, 1)).component == ArrayType::Char
    } else if op == 0x53 || op == 0x55 {
        stores_into_array(t, h)
    } else if op == 0xBE {
        has_operands(t, 1) && operand(t, 0) is Reference && is_array(h, reference_operand(t, 0))
    } else {
        &&& has_code(t, 1)
        &&& 4 <= f.code[f.pc] <= 11
        &&& has_operands(t, 1)
        &&& operand(t, 0) is Int
        &&& int_operand(t, 0) >= 0
        &&& h.len() < u32::MAX
    }
}

/// Whether the frames `t2` and heap `h2` are those after the instruction `op`, which acts on
/// the current frame and the heap, runs on the frames `t` and the heap `h`.
pub open spec fn heap_after(
    op: u8,
    t: Seq<FrameModel>,
    h: Map<u32, HeapedModel>,
    t2: Seq<FrameModel>,
    h2: Map<u32, HeapedModel>,
) -> bool {
    let f = current(t);
    if op == 0x32 || op == 0x34 {
        t2 == replaced(t, 2, loaded(t, h)) && h2 == h
    } else if op == 0x53 || op == 0x55 {
        t2 == popped(t, 3) && h2 == after_store(t, h)
    } else if op == 0xBE {
        &&& t2 == replaced(t, 1, Value::Int(Int(array_at(h, reference_operand(t, 0)).elements.len() as i32)))
        &&& h2 == h
    } else {
        let component = primitive_array_type(f.code[f.pc]);
        exists|r: u32| {
            &&& !h.contains_key(r)
            &&& r != 0
            &&& h2 == h.insert(
                r,
                HeapedModel::Array(ArrayModel {
                    component,
                    elements: Seq::new(int_operand(t, 0) as nat, |i: int| zero_element(component)),
                }),
            )
            &&& t2 == with_top(
                t,
                FrameModel { pc: f.pc + 1, stack: f.stack.drop_last().push(Value::Reference(Reference(r))), ..f },
            )
        }
    }
}

/// Whether an array of type `a` can store `v`.
fn storable_value(a: ArrayType, v: Value) -> (b: bool)
    ensures
        b == storable(a, v),
{
    match (a, v) {
        (ArrayType::Long, Value::Long(_)) => true,
        (ArrayType::Long, _) => false,
        (ArrayType::Float, Value::Float(_)) => true,
        (ArrayType::Float, _) => false,
        (ArrayType::Double, Value::Double(_)) => true,
        (ArrayType::Double, _) => false,
        (ArrayType::Reference, Value::Reference(_)) => true,
        (ArrayType::Reference, _) => false,
        (_, Value::Int(_)) => true,
        _ => false,
    }
}

/// The array `depth` places below the top of the current frame, and an int index `depth - 1`
/// places below the top within it, when they are there; the array's component.
fn indexed_array(thread: &Thread, heap: &Heap, depth: usize) -> (res: Option<ArrayType>)
    requires
        thread@.len() > 0,
        heap_wf(heap@),
        depth == 1 || depth == 2,
    ensures
        match res {
            Some(c) => {
                &&& has_operands(thread@, depth + 1)
                &&& operand(thread@, depth - 1) is Int
                &&& operand(thread@, depth as int) is Reference
                &&& is_array(heap@, reference_operand(thread@, depth as int))
                &&& 0 <= int_operand(thread@, depth - 1) < array_at(heap@, reference_operand(thread@, depth as int)).elements.len()
                &&& c == array_at(heap@, reference_operand(thread@, depth as int)).component
            },
            None => !{
                &&& has_operands(thread@, depth + 1)
                &&& operand(thread@, depth - 1) is Int
                &&& operand(thread@, depth as int) is Reference
                &&& is_array(heap@, reference_operand(thread@, depth as int))
                &&& 0 <= int_operand(thread@, depth - 1) < array_at(heap@, reference_operand(thread@, depth as int)).elements.len()
            },
        },
{
    let index = match peek_operand(thread, depth - 1) {
        Some(Value::Int(i)) => i,
        _ => return None,
    };
    let reference = match peek_operand(thread, depth) {
        Some(Value::Reference(r)) => r,
        _ => return None,
    };
    if !heap.holds_array(reference) {
        return None;
    }
    let arr = heap.get_array(reference);
    assert(heap@.contains_key(reference.0));
    let length = arr.length();
    if index.0 < 0 || index.0 >= length.0 {
        return None;
    }
    Some(arr.component())
}

/// Run the instruction `op`, which acts on the current frame and the heap, when it can run;
/// returns whether it ran.
pub(crate) fn run_heap_op(thread: &mut Thread, heap: &mut Heap, op: u8) -> (ran: bool)
    requires
        old(thread)@.len() > 0,
        heap_wf(old(heap)@),
        heap_op(op),
    ensures
        final(thread).spec_reference() == old(thread).spec_reference(),
        heap_wf(final(heap)@),
        ran == heap_ready(op, old(thread)@, old(heap)@),
        ran ==> heap_after(op, old(thread)@, old(heap)@, final(thread)@, final(heap)@),
        !ran ==> final(thread)@ == old(thread)@ && final(heap)@ == old(heap)@,
{
    if op == 0x32 || op == 0x34 {
        let component = match indexed_array(thread, heap, 1) {
            Some(c) => c,
            None => return false,
        };
        if op == 0x32 {
            array::a_array_load(thread, heap);
        } else {
            match component {
                ArrayType::Char => {},
                _ => return false,
            }
            array::char_array_load(thread, heap);
        }
        return true;
    }
    if op == 0x53 || op == 0x55 {
        let component = match indexed_array(thread, heap, 2) {
            Some(c) => c,
            None => return false,
        };
        let value = match peek_operand(thread, 0) {
            Some(v) => v,
            None => return false,
        };
        if !storable_value(component, value) {
            return false;
        }
        if op == 0x53 {
            array::a_array_store(thread, heap);
        } else {
            array::char_array_store(thread, heap);
        }
        return true;
    }
    if op == 0xBE {
        match peek_operand(thread, 0) {
            Some(Value::Reference(r)) => {
                if !heap.holds_array(r) {
                    return false;
                }
            },
            _ => return false,
        }
        array::array_length(thread, heap);
        return true;
    }
    if !code_left(thread, 1) {
        return false;
    }
    let code = code_byte(thread, 0);
    if code < 4 || code > 11 {
        return false;
    }
    match peek_operand(thread, 0) {
        Some(Value::Int(count)) => {
            if count.0 < 0 {
                return false;
            }
        },
        _ => return false,
    }
    if heap.len() as u64 >= 0xFFFF_FFFF {
        return false;
    }
    array::new_array(thread, heap);
    true
}

/// Whether the opcode `op` only acts on the thread's current frame.
pub fn is_frame_op(op: u8) -> (b: bool)
    ensures
        b == frame_op(op),
{
    (0x01 <= op && op <= 0x0A) || op == 0x11 || op == 0x15 || op == 0x19 || (0x1A <= op && op <= 0x1D)
        || (0x2A <= op && op <= 0x2D) || op == 0x36 || op == 0x3A || (0x3B <= op && op <= 0x3E)
        || (0x4B <= op && op <= 0x4E) || op == 0x57 || op == 0x59 || op == 0x60 || op == 0x64 || op == 0x84
        || op == 0x99 || op == 0x9A || op == 0x9B || op == 0xA0 || op == 0xA1 || op == 0xA2 || op == 0xA4
        || op == 0xA6 || op == 0xA7 || op == 0xC6 || op == 0xC7
}

/// Whether the opcode `op` acts on the current frame and the heap.
pub fn is_heap_op(op: u8) -> (b: bool)
    ensures
        b == heap_op(op),
{
    op == 0x32 || op == 0x34 || op == 0x53 || op == 0x55 || op == 0xBC || op == 0xBE
}

} // verus!
