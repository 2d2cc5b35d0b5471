//! Creating objects, and arrays of references: `new` and `anewarray`.
//!
//! Both name a class in the constant pool. When that class is not loaded, or for `new` not
//! initialized, they do nothing and report it; the caller does what is needed and runs the
//! instruction again.

use vstd::prelude::*;

use crate::heap::HeapedModel;
use crate::heap::allocator::{ArrayModel, ArrayType, ObjectModel};
use crate::instruction::class::{indexes_class, named_class, named_class_index};
use crate::instruction::{current, int_operand, operand};
use crate::java::{Reference, Value};
use crate::method_area::{find_name, first_uninitialized, instance_slots};
use crate::runtime::{Need, Runtime, RuntimeModel, runtime_wf};
use crate::thread::{FrameModel, Thread, with_top};

verus! {

/// What `new` comes to on the frames `t` and the runtime `r`: the frames `t2` and runtime
/// `r2` after it, and its result `res`.
pub open spec fn made_object(t: Seq<FrameModel>, r: RuntimeModel, t2: Seq<FrameModel>, r2: RuntimeModel, res: Result<(), Need>) -> bool {
    match find_name(r.area.classes, named_class(t, r)) {
        None => res matches Err(Need::Class(name)) && name@ == named_class(t, r) && t2 == t && r2 == r,
        Some(c) => match first_uninitialized(r.area, c) {
            Some(k) => res matches Err(Need::Initialization(i)) && i == k && t2 == t && r2 == r,
            None => res is Ok && exists|o: u32| {
                &&& !r.heap.contains_key(o)
                &&& o != 0
                &&& r2 == (RuntimeModel {
                    heap: r.heap.insert(
                        o,
                        HeapedModel::Object(ObjectModel { class: c as usize, fields: instance_slots(r.area.classes, c) }),
                    ),
                    ..r
                })
                &&& t2 == with_top(
                    t,
                    FrameModel {
                        pc: current(t).pc + 2,
                        stack: current(t).stack.push(Value::Reference(Reference(o))),
                        ..current(t)
                    },
                )
            },
        },
    }
}

/// `new`: push a reference to a new object of the class named by the index after the opcode,
/// its fields each their type's zero; the class and its super classes must have been
/// initialized.
pub fn new(thread: &mut Thread, runtime: &mut Runtime) -> (res: Result<(), Need>)
    requires
        indexes_class(old(thread)@, old(runtime)@),
        runtime_wf(old(runtime)@),
        old(runtime)@.heap.len() < u32::MAX,
    ensures
        final(thread).spec_reference() == old(thread).spec_reference(),
        runtime_wf(final(runtime)@),
        made_object(old(thread)@, old(runtime)@, final(thread)@, final(runtime)@, res),
{
    let class = match named_class_index(thread, runtime) {
        Ok(c) => c,
        Err(need) => return Err(need),
    };
    match runtime.method_area().next_to_initialize(class) {
        Some(k) => return Err(Need::Initialization(k)),
        None => {},
    }
    let mut frame = thread.pop_frame();
    let _class_idx = frame.read_u16();
    let new_ref = runtime.new_instance(class);
    frame.operand_stack.push(Value::Reference(new_ref));
    thread.push_frame(frame);
    Ok(())
}

/// What `anewarray` comes to on the frames `t` and the runtime `r`: the frames `t2` and
/// runtime `r2` after it, and its result `res`.
pub open spec fn made_reference_array(
    t: Seq<FrameModel>,
    r: RuntimeModel,
    t2: Seq<FrameModel>,
    r2: RuntimeModel,
    res: Result<(), Need>,
) -> bool {
    match find_name(r.area.classes, named_class(t, r)) {
        None => res matches Err(Need::Class(name)) && name@ == named_class(t, r) && t2 == t && r2 == r,
        Some(c) => res is Ok && exists|o: u32| {
            &&& !r.heap.contains_key(o)
            &&& o != 0
            &&& r2 == (RuntimeModel {
                heap: r.heap.insert(
                    o,
                    HeapedModel::Array(ArrayModel {
                        component: ArrayType::Reference,
                        elements: Seq::new(int_operand(t, 0) as nat, |i: int| Value::Reference(Reference(0))),
                    }),
                ),
                ..r
            })
            &&& t2 == with_top(
                t,
                FrameModel {
                    pc: current(t).pc + 2,
                    stack: current(t).stack.drop_last().push(Value::Reference(Reference(o))),
                    ..current(t)
                },
            )
        },
    }
}

/// `anewarray`: replace the count on top by a reference to a new array of that many null
/// references, its component the class named by the index after the opcode.
pub fn a_new_array(thread: &mut Thread, runtime: &mut Runtime) -> (res: Result<(), Need>)
    requires
        indexes_class(old(thread)@, old(runtime)@),
        current(old(thread)@).stack.len() >= 1,
        operand(old(thread)@, 0) is Int,
        int_operand(old(thread)@, 0) >= 0,
        runtime_wf(old(runtime)@),
        old(runtime)@.heap.len() < u32::MAX,
    ensures
        final(thread).spec_reference() == old(thread).spec_reference(),
        runtime_wf(final(runtime)@),
        made_reference_array(old(thread)@, old(runtime)@, final(thread)@, final(runtime)@, res),
{
    match named_class_index(thread, runtime) {
        Ok(_) => {},
        Err(need) => return Err(need),
    }
    let mut frame = thread.pop_frame();
    let _class_idx = frame.read_u16();
    let count = frame.operand_stack.pop().as_int();
    let array_ref = runtime.new_reference_array(count);
    frame.operand_stack.push(Value::Reference(array_ref));
    thread.push_frame(frame);
    Ok(())
}

} // verus!
