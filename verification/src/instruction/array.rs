//! Creating arrays, and loading and storing their elements.
//!
//! `anewarray`, which names its component class in the constant pool, stands with the
//! instructions that resolve classes.

use vstd::prelude::*;

use crate::heap::allocator::{ArrayModel, ArrayType, array_wf, storable, stored, zero_element};
use crate::heap::{Heap, HeapedModel, array_at, heap_wf, is_array};
use crate::instruction::{current, has_code, int_operand, operand, reference_operand};
use crate::java::{Int, Reference, Value};
use crate::thread::{Frame, FrameModel, Thread, with_top};

verus! {

broadcast use vstd::std_specs::hash::group_hash_axioms;

/// Whether the current frame holds an array reference with an int index above it, the index
/// within the array.
pub open spec fn indexes_array(t: Seq<FrameModel>, heap: Map<u32, HeapedModel>) -> bool {
    &&& t.len() > 0
    &&& current(t).stack.len() >= 2
    &&& operand(t, 0) is Int
    &&& operand(t, 1) is Reference
    &&& is_array(heap, reference_operand(t, 1))
    &&& 0 <= int_operand(t, 0) < array_at(heap, reference_operand(t, 1)).elements.len()
}

/// Whether the current frame holds an array reference, an int index within the array and a
/// value the array can store, the value on top.
pub open spec fn stores_into_array(t: Seq<FrameModel>, heap: Map<u32, HeapedModel>) -> bool {
    &&& t.len() > 0
    &&& current(t).stack.len() >= 3
    &&& operand(t, 1) is Int
    &&& operand(t, 2) is Reference
    &&& is_array(heap, reference_operand(t, 2))
    &&& 0 <= int_operand(t, 1) < array_at(heap, reference_operand(t, 2)).elements.len()
    &&& storable(array_at(heap, reference_operand(t, 2)).component, operand(t, 0))
}

/// The element an array load pushes.
pub open spec fn loaded(t: Seq<FrameModel>, heap: Map<u32, HeapedModel>) -> Value {
    array_at(heap, reference_operand(t, 1)).elements[int_operand(t, 0) as int]
}

/// The frames after an instruction that replaces the `n` operands on top by `v`.
pub open spec fn replaced(t: Seq<FrameModel>, n: int, v: Value) -> Seq<FrameModel> {
    let f = current(t);
    with_top(t, FrameModel { stack: f.stack.subrange(0, f.stack.len() - n).push(v), ..f })
}

/// The frames after an instruction that pops the `n` operands on top.
pub open spec fn popped(t: Seq<FrameModel>, n: int) -> Seq<FrameModel> {
    let f = current(t);
    with_top(t, FrameModel { stack: f.stack.subrange(0, f.stack.len() - n), ..f })
}

/// The heap after an array store of the current frame's operands.
pub open spec fn after_store(t: Seq<FrameModel>, heap: Map<u32, HeapedModel>) -> Map<u32, HeapedModel> {
    let r = reference_operand(t, 2);
    let a = array_at(heap, r);
    heap.insert(
        r,
        HeapedModel::Array(ArrayModel {
            elements: a.elements.update(int_operand(t, 1) as int, stored(a.component, operand(t, 0))),
            ..a
        }),
    )
}

/// Take the current frame off the thread and pop an array reference and the int index above
/// it.
fn take_index(thread: &mut Thread) -> (res: (Frame, Reference, Int))
    requires
        old(thread)@.len() > 0,
        current(old(thread)@).stack.len() >= 2,
        operand(old(thread)@, 0) is Int,
        operand(old(thread)@, 1) is Reference,
    ensures
        final(thread).spec_reference() == old(thread).spec_reference(),
        final(thread)@ == old(thread)@.drop_last(),
        res.0@ == (FrameModel {
            stack: current(old(thread)@).stack.subrange(0, current(old(thread)@).stack.len() - 2),
            ..current(old(thread)@)
        }),
        res.1.0 == reference_operand(old(thread)@, 1),
        res.2.0 == int_operand(old(thread)@, 0),
{
    let ghost t = thread@;
    let mut frame = thread.pop_frame();
    let index = frame.operand_stack.pop().as_int();
    let arr_ref = frame.operand_stack.pop().as_reference();
    proof {
        assert(frame@.stack =~= current(t).stack.subrange(0, current(t).stack.len() - 2));
    }
    (frame, arr_ref, index)
}

/// Pop a value, an index and an array reference, and store the value at the index.
fn store_element(thread: &mut Thread, heap: &mut Heap)
    requires
        stores_into_array(old(thread)@, old(heap)@),
        heap_wf(old(heap)@),
    ensures
        final(thread).spec_reference() == old(thread).spec_reference(),
        final(thread)@ == popped(old(thread)@, 3),
        final(heap)@ == after_store(old(thread)@, old(heap)@),
        heap_wf(final(heap)@),
{
    let ghost t = thread@;
    let mut frame = thread.pop_frame();
    let value = frame.operand_stack.pop();
    let index = frame.operand_stack.pop().as_int();
    let arr_ref = frame.operand_stack.pop().as_reference();
    proof {
        assert(frame@.stack =~= current(t).stack.subrange(0, current(t).stack.len() - 3));
    }
    heap.set_element(arr_ref, index, value);
    thread.push_frame(frame);
}

/// Pop an index and an array reference, and push the element at the index.
fn load_element(thread: &mut Thread, heap: &Heap)
    requires
        indexes_array(old(thread)@, heap@),
    ensures
        final(thread).spec_reference() == old(thread).spec_reference(),
        final(thread)@ == replaced(old(thread)@, 2, loaded(old(thread)@, heap@)),
{
    let (mut frame, arr_ref, index) = take_index(thread);
    let arr = heap.get_array(arr_ref);
    let elem = arr.get_element(index);
    frame.operand_stack.push(elem);
    thread.push_frame(frame);
}

/// `arraylength`: replace the array reference on top by the array's length.
pub fn array_length(thread: &mut Thread, heap: &Heap)
    requires
        old(thread)@.len() > 0,
        current(old(thread)@).stack.len() >= 1,
        operand(old(thread)@, 0) is Reference,
        is_array(heap@, reference_operand(old(thread)@, 0)),
        heap_wf(heap@),
    ensures
        final(thread).spec_reference() == old(thread).spec_reference(),
        final(thread)@ == replaced(
            old(thread)@,
            1,
            Value::Int(Int(array_at(heap@, reference_operand(old(thread)@, 0)).elements.len() as i32)),
        ),
{
    let ghost t = thread@;
    let mut frame = thread.pop_frame();
    let arr_ref = frame.operand_stack.pop().as_reference();
    proof {
        assert(frame@.stack =~= current(t).stack.subrange(0, current(t).stack.len() - 1));
    }
    let arr = heap.get_array(arr_ref);
    let arr_length = arr.length();
    frame.operand_stack.push(Value::Int(arr_length));
    thread.push_frame(frame);
}

/// `caload`: replace an array reference and an index by the char at the index, as an int;
/// the array must hold chars.
pub fn char_array_load(thread: &mut Thread, heap: &Heap)
    requires
        indexes_array(old(thread)@, heap@),
        array_at(heap@, reference_operand(old(thread)@, 1)).component == ArrayType::Char,
    ensures
        final(thread).spec_reference() == old(thread).spec_reference(),
        final(thread)@ == replaced(old(thread)@, 2, loaded(old(thread)@, heap@)),
{
    load_element(thread, heap);
}

/// `aaload`: replace an array reference and an index by the reference at the index.
pub fn a_array_load(thread: &mut Thread, heap: &Heap)
    requires
        indexes_array(old(thread)@, heap@),
    ensures
        final(thread).spec_reference() == old(thread).spec_reference(),
        final(thread)@ == replaced(old(thread)@, 2, loaded(old(thread)@, heap@)),
{
    load_element(thread, heap);
}

/// `iaload`: replace an array reference and an index by the int at the index.
pub fn int_array_load(thread: &mut Thread, heap: &Heap)
    requires
        indexes_array(old(thread)@, heap@),
    ensures
        final(thread).spec_reference() == old(thread).spec_reference(),
        final(thread)@ == replaced(old(thread)@, 2, loaded(old(thread)@, heap@)),
{
    load_element(thread, heap);
}

/// `baload`: replace an array reference and an index by the byte or boolean at the index,
/// as an int.
pub fn byte_array_load(thread: &mut Thread, heap: &Heap)
    requires
        indexes_array(old(thread)@, heap@),
    ensures
        final(thread).spec_reference() == old(thread).spec_reference(),
        final(thread)@ == replaced(old(thread)@, 2, loaded(old(thread)@, heap@)),
{
    load_element(thread, heap);
}

/// `bastore`: pop a value, an index and an array reference, and store the value, narrowed to
/// a byte, at the index.
pub fn byte_array_store(thread: &mut Thread, heap: &mut Heap)
    requires
        stores_into_array(old(thread)@, old(heap)@),
        heap_wf(old(heap)@),
    ensures
        final(thread).spec_reference() == old(thread).spec_reference(),
        final(thread)@ == popped(old(thread)@, 3),
        final(heap)@ == after_store(old(thread)@, old(heap)@),
        heap_wf(final(heap)@),
{
    store_element(thread, heap);
}

/// `castore`: pop a value, an index and an array reference, and store the value, narrowed to
/// a char, at the index.
pub fn char_array_store(thread: &mut Thread, heap: &mut Heap)
    requires
        stores_into_array(old(thread)@, old(heap)@),
        heap_wf(old(heap)@),
    ensures
        final(thread).spec_reference() == old(thread).spec_reference(),
        final(thread)@ == popped(old(thread)@, 3),
        final(heap)@ == after_store(old(thread)@, old(heap)@),
        heap_wf(final(heap)@),
{
    store_element(thread, heap);
}

/// `iastore`: pop a value, an index and an array reference, and store the value at the index.
pub fn int_array_store(thread: &mut Thread, heap: &mut Heap)
    requires
        stores_into_array(old(thread)@, old(heap)@),
        heap_wf(old(heap)@),
    ensures
        final(thread).spec_reference() == old(thread).spec_reference(),
        final(thread)@ == popped(old(thread)@, 3),
        final(heap)@ == after_store(old(thread)@, old(heap)@),
        heap_wf(final(heap)@),
{
    store_element(thread, heap);
}

/// `aastore`: pop a reference, an index and an array reference, and store the reference at
/// the index.
pub fn a_array_store(thread: &mut Thread, heap: &mut Heap)
    requires
        stores_into_array(old(thread)@, old(heap)@),
        heap_wf(old(heap)@),
    ensures
        final(thread).spec_reference() == old(thread).spec_reference(),
        final(thread)@ == popped(old(thread)@, 3),
        final(heap)@ == after_store(old(thread)@, old(heap)@),
        heap_wf(final(heap)@),
{
    store_element(thread, heap);
}

/// The array type `newarray` creates for the type code `code`, which must be one of the
/// codes from 4 (boolean) to 11 (long).
pub open spec fn primitive_array_type(code: u8) -> ArrayType {
    if code == 4 || code == 8 {
        ArrayType::BooleanOrByte
    } else if code == 5 {
        ArrayType::Char
    } else if code == 6 {
        ArrayType::Float
    } else if code == 7 {
        ArrayType::Double
    } else if code == 9 {
        ArrayType::Short
    } else if code == 10 {
        ArrayType::Int
    } else {
        ArrayType::Long
    }
}

/// `newarray`: replace the count on top by a reference to a new array of that many zero
/// elements, of the primitive type whose code follows the opcode.
pub fn new_array(thread: &mut Thread, heap: &mut Heap)
    requires
        has_code(old(thread)@, 1),
        4 <= current(old(thread)@).code[current(old(thread)@).pc] <= 11,
        current(old(thread)@).stack.len() >= 1,
        operand(old(thread)@, 0) is Int,
        int_operand(old(thread)@, 0) >= 0,
        heap_wf(old(heap)@),
        old(heap)@.len() < u32::MAX,
    ensures
        final(thread).spec_reference() == old(thread).spec_reference(),
        ({
            let f = current(old(thread)@);
            let component = primitive_array_type(f.code[f.pc]);
            exists|r: u32| {
                &&& !old(heap)@.contains_key(r)
                &&& r != 0
                &&& final(heap)@ == old(heap)@.insert(
                    r,
                    HeapedModel::Array(ArrayModel {
                        component,
                        elements: Seq::new(int_operand(old(thread)@, 0) as nat, |i: int| zero_element(component)),
                    }),
                )
                &&& final(thread)@ == with_top(
                    old(thread)@,
                    FrameModel {
                        pc: f.pc + 1,
                        stack: f.stack.drop_last().push(Value::Reference(Reference(r))),
                        ..f
                    },
                )
            }
        }),
        heap_wf(final(heap)@),
{
    let mut frame = thread.pop_frame();
    let array_type = frame.read_u8();
    let count = frame.operand_stack.pop().as_int();
    let component = if array_type == 4 || array_type == 8 {
        ArrayType::BooleanOrByte
    } else if array_type == 5 {
        ArrayType::Char
    } else if array_type == 6 {
        ArrayType::Float
    } else if array_type == 7 {
        ArrayType::Double
    } else if array_type == 9 {
        ArrayType::Short
    } else if array_type == 10 {
        ArrayType::Int
    } else {
        ArrayType::Long
    };
    let arr_ref = heap.new_array(component, count);
    frame.operand_stack.push(Value::Reference(arr_ref));
    thread.push_frame(frame);
}

} // verus!
