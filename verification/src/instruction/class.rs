//! Checking the class of an object: `checkcast` and `instanceof`.
//!
//! Both name a class in the constant pool. When that class is not loaded yet they do nothing
//! and report it; the caller loads it and runs the instruction again.

use vstd::prelude::*;

use crate::heap::{HeapedModel, is_object};
use crate::instruction::{code_u16, current, has_code, has_pool_entry, operand, pool_entry, reference_operand};
use crate::java::{Int, Reference, Value};
use crate::method_area::const_pool::{Const, RuntimeConst};
use crate::method_area::{find_name, instance_of_spec, lemma_find_name_bounds};
use crate::runtime::{Need, Runtime, RuntimeModel, runtime_wf};
use crate::thread::{FrameModel, Thread, with_top};

verus! {

/// Whether the current frame has a two-byte index after its opcode that names a class in its
/// class's constant pool.
pub open spec fn indexes_class(t: Seq<FrameModel>, r: RuntimeModel) -> bool {
    &&& has_code(t, 2)
    &&& has_pool_entry(r, current(t), code_u16(current(t)))
    &&& pool_entry(r, current(t), code_u16(current(t))) is Class
}

/// Whether the current frame has a reference on top and a two-byte index after its opcode
/// that names a class in its class's constant pool.
pub open spec fn names_class(t: Seq<FrameModel>, r: RuntimeModel) -> bool {
    &&& indexes_class(t, r)
    &&& current(t).stack.len() >= 1
    &&& operand(t, 0) is Reference
}

/// The name of the class that the index after the current opcode names.
pub open spec fn named_class(t: Seq<FrameModel>, r: RuntimeModel) -> Seq<char> {
    pool_entry(r, current(t), code_u16(current(t)))->Class_0
}

/// The class of the object a non-null reference on top refers to.
pub open spec fn object_class(t: Seq<FrameModel>, r: RuntimeModel) -> usize {
    match r.heap[reference_operand(t, 0)] {
        HeapedModel::Object(o) => o.class,
        HeapedModel::Array(_) => 0,
    }
}

/// Whether a non-null reference on top refers to an array, or to an object of a loaded class.
pub open spec fn refers_to_value(t: Seq<FrameModel>, r: RuntimeModel) -> bool {
    reference_operand(t, 0) != 0 ==> {
        &&& r.heap.contains_key(reference_operand(t, 0))
        &&& is_object(r.heap, reference_operand(t, 0)) ==> object_class(t, r) < r.area.classes.len()
    }
}

/// Whether `name` names a class that every array is an instance of: `Object`, and the two
/// interfaces that arrays implement.
pub open spec fn array_supertype(name: Seq<char>) -> bool {
    ||| name == "java.lang.Object"@
    ||| name == "java.lang.Cloneable"@
    ||| name == "java.io.Serializable"@
}

/// Whether the value `v` refers to in the runtime `r` is an instance of the class at `c`: an
/// object when its class or a super class has that class's name, an array when that class
/// is one that every array is an instance of.
pub open spec fn value_instance_of(r: RuntimeModel, v: u32, c: int) -> bool {
    match r.heap[v] {
        HeapedModel::Object(o) => instance_of_spec(r.area.classes, o.class as int, c),
        HeapedModel::Array(_) => array_supertype(r.area.classes[c].name),
    }
}

/// Whether the value the reference on top refers to is an instance of the class at `c`.
pub open spec fn top_instance_of(t: Seq<FrameModel>, r: RuntimeModel, c: int) -> bool {
    value_instance_of(r, reference_operand(t, 0), c)
}

/// Whether `name` names a class that every array is an instance of.
fn is_array_supertype(name: &String) -> (b: bool)
    ensures
        b == array_supertype(name@),
{
    let object = String::from_str("java.lang.Object");
    let cloneable = String::from_str("java.lang.Cloneable");
    let serializable = String::from_str("java.io.Serializable");
    proof {
        reveal_strlit("java.lang.Object");
        reveal_strlit("java.lang.Cloneable");
        reveal_strlit("java.io.Serializable");
    }
    *name == object || *name == cloneable || *name == serializable
}

/// Whether the value `reference` refers to is an instance of the class at `class`.
pub fn refers_to_instance(runtime: &Runtime, reference: Reference, class: usize) -> (b: bool)
    requires
        runtime_wf(runtime@),
        runtime@.heap.contains_key(reference.0),
        is_object(runtime@.heap, reference.0) ==> runtime@.heap[reference.0]->Object_0.class < runtime@.area.classes.len(),
        class < runtime@.area.classes.len(),
    ensures
        b == value_instance_of(runtime@, reference.0, class as int),
{
    if runtime.heap().holds_object(reference) {
        let own = runtime.heap().get_object(reference).class();
        runtime.method_area().is_instance_of(own, class)
    } else {
        is_array_supertype(&runtime.method_area().class(class).name)
    }
}

/// The current frame with its program counter past the index and `v` in place of its top.
pub open spec fn after_check(f: FrameModel, v: Value) -> FrameModel {
    FrameModel { pc: f.pc + 2, stack: f.stack.drop_last().push(v), ..f }
}

/// Look up the class named by the index after the current opcode, without reading it.
pub fn named_class_index(thread: &Thread, runtime: &Runtime) -> (res: Result<usize, Need>)
    requires
        indexes_class(thread@, runtime@),
        runtime_wf(runtime@),
    ensures
        match find_name(runtime@.area.classes, named_class(thread@, runtime@)) {
            Some(c) => res matches Ok(k) && k == c && c < runtime@.area.classes.len(),
            None => res matches Err(Need::Class(name)) && name@ == named_class(thread@, runtime@),
        },
{
    let frame = thread.frame(thread.depth() - 1);
    let index = frame.peek_u16();
    let area = runtime.method_area();
    let pool = &area.class(frame.class).const_pool;
    let reference = pool.get_class(index);
    proof {
        lemma_find_name_bounds(runtime@.area.classes, named_class(thread@, runtime@));
    }
    match area.find_class(&reference.const_key.name) {
        Some(c) => Ok(c),
        None => Err(Need::Class(reference.const_key.name.clone())),
    }
}

/// What `checkcast` comes to on the frames `t` and the runtime `r`: the frames `t2` after it,
/// and its result `res`.
pub open spec fn cast_checked(t: Seq<FrameModel>, r: RuntimeModel, t2: Seq<FrameModel>, res: Result<(), Need>) -> bool {
    match find_name(r.area.classes, named_class(t, r)) {
        Some(c) => res is Ok && t2 == with_top(t, after_check(current(t), operand(t, 0))),
        None => res matches Err(Need::Class(name)) && name@ == named_class(t, r) && t2 == t,
    }
}

/// `checkcast`: check that the reference on top is null or refers to an instance of the class
/// named by the index after the opcode: an object of that class or of a subclass of it, or an
/// array when that class is `Object`, `Cloneable` or `Serializable`; the program stops when
/// it does not.
pub fn check_cast(thread: &mut Thread, runtime: &Runtime) -> (res: Result<(), Need>)
    requires
        names_class(old(thread)@, runtime@),
        runtime_wf(runtime@),
        refers_to_value(old(thread)@, runtime@),
        find_name(runtime@.area.classes, named_class(old(thread)@, runtime@)) matches Some(c) ==> (
        reference_operand(old(thread)@, 0) != 0 ==> top_instance_of(old(thread)@, runtime@, c)),
    ensures
        final(thread).spec_reference() == old(thread).spec_reference(),
        cast_checked(old(thread)@, runtime@, final(thread)@, res),
{
    let class = match named_class_index(thread, runtime) {
        Ok(c) => c,
        Err(need) => return Err(need),
    };
    let mut frame = thread.pop_frame();
    let _index = frame.read_u16();
    let reference = frame.operand_stack.pop().as_reference();

    if reference.0 == 0 {
        frame.operand_stack.push(Value::Reference(Reference(0)));
        thread.push_frame(frame);
        return Ok(());
    }

    let is_instance = refers_to_instance(runtime, reference, class);
    // The value is an instance: a failing check stops the program, which the precondition
    // rules out.
    if !is_instance {
        proof {
            assert(false);
        }
    }
    frame.operand_stack.push(Value::Reference(reference));
    thread.push_frame(frame);
    Ok(())
}

/// What `instanceof` comes to on the frames `t` and the runtime `r`: the frames `t2` after
/// it, and its result `res`.
pub open spec fn instance_checked(t: Seq<FrameModel>, r: RuntimeModel, t2: Seq<FrameModel>, res: Result<(), Need>) -> bool {
    match find_name(r.area.classes, named_class(t, r)) {
        Some(c) => res is Ok && t2 == with_top(
            t,
            after_check(
                current(t),
                Value::Int(Int(
                    if reference_operand(t, 0) != 0 && top_instance_of(t, r, c) {
                        1
                    } else {
                        0
                    },
                )),
            ),
        ),
        None => res matches Err(Need::Class(name)) && name@ == named_class(t, r) && t2 == t,
    }
}

/// `instanceof`: replace the reference on top by 1 when it refers to an instance of the class
/// named by the index after the opcode (an object of that class or of a subclass of it, or an
/// array when that class is `Object`, `Cloneable` or `Serializable`), and by 0 otherwise,
/// null included.
pub fn instance_of(thread: &mut Thread, runtime: &Runtime) -> (res: Result<(), Need>)
    requires
        names_class(old(thread)@, runtime@),
        runtime_wf(runtime@),
        refers_to_value(old(thread)@, runtime@),
    ensures
        final(thread).spec_reference() == old(thread).spec_reference(),
        instance_checked(old(thread)@, runtime@, final(thread)@, res),
{
    let class = match named_class_index(thread, runtime) {
        Ok(c) => c,
        Err(need) => return Err(need),
    };
    let mut frame = thread.pop_frame();
    let _index = frame.read_u16();
    let reference = frame.operand_stack.pop().as_reference();

    if reference.0 == 0 {
        frame.operand_stack.push(Value::Int(Int(0)));
        thread.push_frame(frame);
        return Ok(());
    }

    let result = if refers_to_instance(runtime, reference, class) {
        Value::Int(Int(1))
    } else {
        Value::Int(Int(0))
    };

    frame.operand_stack.push(result);
    thread.push_frame(frame);
    Ok(())
}

} // verus!
