//! Pushing constants on the operand stack.

use vstd::prelude::*;

use crate::instruction::{code_u16, current, has_code, has_pool_entry, pool_entry, push_operand};
use crate::java::{Int, Long, Reference, Value};
use crate::method_area::const_pool::{Const, RuntimeConst};
use crate::method_area::find_name;
use crate::runtime::{Need, Runtime, RuntimeModel, interned, lookup, made_class_object, runtime_wf};
use crate::thread::{FrameModel, Thread, with_top};

verus! {

/// The frames after pushing `v` on the current frame's operand stack.
pub open spec fn pushed(t: Seq<FrameModel>, v: Value) -> Seq<FrameModel> {
    with_top(t, push_operand(current(t), v))
}

/// Push `v` on the current frame's operand stack.
fn push_value(thread: &mut Thread, v: Value)
    requires
        old(thread)@.len() > 0,
    ensures
        final(thread).spec_reference() == old(thread).spec_reference(),
        final(thread)@ == pushed(old(thread)@, v),
{
    let mut frame = thread.pop_frame();
    frame.operand_stack.push(v);
    thread.push_frame(frame);
}

/// `iconst_<i>`: push the int `value`.
pub fn iconst_n(thread: &mut Thread, value: i32)
    requires
        old(thread)@.len() > 0,
    ensures
        final(thread).spec_reference() == old(thread).spec_reference(),
        final(thread)@ == pushed(old(thread)@, Value::Int(Int(value))),
{
    push_value(thread, Value::Int(Int(value)));
}

/// `lconst_<l>`: push the long `long`.
pub fn lconst_n(thread: &mut Thread, long: i64)
    requires
        old(thread)@.len() > 0,
    ensures
        final(thread).spec_reference() == old(thread).spec_reference(),
        final(thread)@ == pushed(old(thread)@, Value::Long(Long(long))),
{
    push_value(thread, Value::Long(Long(long)));
}

/// `aconst_null`: push the null reference.
pub fn aconst_null(thread: &mut Thread)
    requires
        old(thread)@.len() > 0,
    ensures
        final(thread).spec_reference() == old(thread).spec_reference(),
        final(thread)@ == pushed(old(thread)@, Value::Reference(Reference(0))),
{
    push_value(thread, Value::Reference(Reference(0)));
}

/// The frames after a constant load that read `width` bytes after its opcode and pushed `v`.
pub open spec fn loaded_constant(t: Seq<FrameModel>, width: int, v: Value) -> Seq<FrameModel> {
    let f = current(t);
    with_top(t, FrameModel { pc: f.pc + width, stack: f.stack.push(v), ..f })
}

/// Whether the entry at `index` of the current frame's pool is one a load of a first-category
/// constant accepts, and the runtime has room for what it may make.
pub open spec fn loadable(t: Seq<FrameModel>, r: RuntimeModel, index: u16) -> bool {
    &&& runtime_wf(r)
    &&& r.heap.len() + 3 <= u32::MAX
    &&& has_pool_entry(r, current(t), index)
    &&& match pool_entry(r, current(t), index) {
        RuntimeConst::Integer(_) => true,
        RuntimeConst::String(s) => s.len() <= 0x3FFF_FFFF,
        RuntimeConst::Class(name) => name.len() <= 0x3FFF_FFFF,
        _ => false,
    }
}

/// What loading the first-category constant at `index` of the current frame's pool, read as
/// `width` bytes after the opcode, comes to: the thread and runtime after it and its result.
pub open spec fn load_outcome(
    t: Seq<FrameModel>,
    r: RuntimeModel,
    index: u16,
    width: int,
    t2: Seq<FrameModel>,
    r2: RuntimeModel,
    res: Result<(), Need>,
) -> bool {
    let unchanged = t2 == t && r2 == r;
    match pool_entry(r, current(t), index) {
        RuntimeConst::Integer(i) => res is Ok && r2 == r && t2 == loaded_constant(t, width, Value::Int(Int(i))),
        RuntimeConst::String(s) => match lookup(r.strings, s) {
            Some(k) => res is Ok && r2 == r && t2 == loaded_constant(
                t,
                width,
                Value::Reference(Reference(r.strings[k].1)),
            ),
            None => match find_name(r.area.classes, "java.lang.String"@) {
                None => res matches Err(Need::Class(n)) && n@ == "java.lang.String"@ && unchanged,
                Some(sc) => res is Ok && exists|o: u32|
                    interned(r, r2, s, sc, o) && t2 == loaded_constant(t, width, Value::Reference(Reference(o))),
            },
        },
        RuntimeConst::Class(name) => match find_name(r.area.classes, name) {
            None => res matches Err(Need::Class(n)) && n@ == name && unchanged,
            Some(c) => match lookup(r.class_objects, c as usize) {
                Some(k) => res is Ok && r2 == r && t2 == loaded_constant(
                    t,
                    width,
                    Value::Reference(Reference(r.class_objects[k].1)),
                ),
                None => match (
                    find_name(r.area.classes, "java.lang.String"@),
                    find_name(r.area.classes, "java.lang.Class"@),
                ) {
                    (None, _) => res matches Err(Need::Class(n)) && n@ == "java.lang.String"@ && unchanged,
                    (Some(_), None) => res matches Err(Need::Class(n)) && n@ == "java.lang.Class"@ && unchanged,
                    (Some(sc), Some(cc)) => res is Ok && exists|o: u32|
                        made_class_object(r, r2, c as usize, sc, cc, o) && t2 == loaded_constant(
                            t,
                            width,
                            Value::Reference(Reference(o)),
                        ),
                },
            },
        },
        _ => false,
    }
}

/// Load the first-category constant at `index` of the current frame's pool, which the
/// `width` bytes after the opcode hold.
fn load_category_one(thread: &mut Thread, runtime: &mut Runtime, index: u16, width: usize) -> (res: Result<(), Need>)
    requires
        width == 1 || width == 2,
        has_code(old(thread)@, width as int),
        loadable(old(thread)@, old(runtime)@, index),
    ensures
        final(thread).spec_reference() == old(thread).spec_reference(),
        runtime_wf(final(runtime)@),
        load_outcome(old(thread)@, old(runtime)@, index, width as int, final(thread)@, final(runtime)@, res),
{
    let ghost t = thread@;
    let ghost r = runtime@;
    let ghost mut pushed: u32 = 0;
    let class = thread.frame(thread.depth() - 1).class;
    let value = match runtime.method_area().class(class).const_pool.get_const(index) {
        Const::Integer(integer) => Value::Int(Int(*integer)),
        Const::String(reference) => {
            let string = reference.const_key.clone();
            match runtime.intern_string(&string) {
                Ok(reference) => {
                    proof {
                        pushed = reference.0;
                    }
                    Value::Reference(reference)
                },
                Err(need) => return Err(need),
            }
        },
        Const::Class(reference) => {
            let name = reference.const_key.name.clone();
            proof {
                crate::method_area::lemma_find_name_bounds(r.area.classes, name@);
            }
            let c = match runtime.method_area().find_class(&name) {
                Some(c) => c,
                None => return Err(Need::Class(name)),
            };
            match runtime.class_object(c) {
                Ok(reference) => {
                    proof {
                        pushed = reference.0;
                    }
                    Value::Reference(reference)
                },
                Err(need) => return Err(need),
            }
        },
        _ => unreached(),
    };
    let mut frame = thread.pop_frame();
    if width == 1 {
        let _index = frame.read_u8();
    } else {
        let _index = frame.read_u16();
    }
    frame.operand_stack.push(value);
    thread.push_frame(frame);
    proof {
        let r2 = runtime@;
        let t2 = thread@;
        assert(t2 == loaded_constant(t, width as int, value));
        match pool_entry(r, current(t), index) {
            RuntimeConst::String(s) => {
                if lookup(r.strings, s) is None {
                    let sc = find_name(r.area.classes, "java.lang.String"@)->Some_0;
                    assert(interned(r, r2, s, sc, pushed));
                    assert(t2 == loaded_constant(t, width as int, Value::Reference(Reference(pushed))));
                }
            },
            RuntimeConst::Class(name) => {
                let c = find_name(r.area.classes, name)->Some_0;
                if lookup(r.class_objects, c as usize) is None {
                    let sc = find_name(r.area.classes, "java.lang.String"@)->Some_0;
                    let cc = find_name(r.area.classes, "java.lang.Class"@)->Some_0;
                    assert(made_class_object(r, r2, c as usize, sc, cc, pushed));
                    assert(t2 == loaded_constant(t, width as int, Value::Reference(Reference(pushed))));
                }
            },
            _ => {},
        }
    }
    Ok(())
}

/// `ldc`: push the constant at the one-byte index after the opcode: an int, an interned
/// string, or the class object of a class.
pub fn load_constant(thread: &mut Thread, runtime: &mut Runtime) -> (res: Result<(), Need>)
    requires
        has_code(old(thread)@, 1),
        loadable(old(thread)@, old(runtime)@, current(old(thread)@).code[current(old(thread)@).pc] as u16),
    ensures
        final(thread).spec_reference() == old(thread).spec_reference(),
        runtime_wf(final(runtime)@),
        load_outcome(
            old(thread)@,
            old(runtime)@,
            current(old(thread)@).code[current(old(thread)@).pc] as u16,
            1,
            final(thread)@,
            final(runtime)@,
            res,
        ),
{
    let index = thread.frame(thread.depth() - 1).peek_u8() as u16;
    load_category_one(thread, runtime, index, 1)
}

/// `ldc_w`: push the constant at the two-byte index after the opcode: an int, an interned
/// string, or the class object of a class.
pub fn load_constant_wide(thread: &mut Thread, runtime: &mut Runtime) -> (res: Result<(), Need>)
    requires
        has_code(old(thread)@, 2),
        loadable(old(thread)@, old(runtime)@, code_u16(current(old(thread)@))),
    ensures
        final(thread).spec_reference() == old(thread).spec_reference(),
        runtime_wf(final(runtime)@),
        load_outcome(
            old(thread)@,
            old(runtime)@,
            code_u16(current(old(thread)@)),
            2,
            final(thread)@,
            final(runtime)@,
            res,
        ),
{
    let index = thread.frame(thread.depth() - 1).peek_u16();
    load_category_one(thread, runtime, index, 2)
}

/// `ldc2_w`: push the long constant at the two-byte index after the opcode.
pub fn load_constant_cat_2_wide(thread: &mut Thread, runtime: &Runtime)
    requires
        has_code(old(thread)@, 2),
        has_pool_entry(runtime@, current(old(thread)@), code_u16(current(old(thread)@))),
        pool_entry(runtime@, current(old(thread)@), code_u16(current(old(thread)@))) is Long,
    ensures
        final(thread).spec_reference() == old(thread).spec_reference(),
        final(thread)@ == loaded_constant(
            old(thread)@,
            2,
            Value::Long(Long(pool_entry(runtime@, current(old(thread)@), code_u16(current(old(thread)@)))->Long_0)),
        ),
{
    let class = thread.frame(thread.depth() - 1).class;
    let index = thread.frame(thread.depth() - 1).peek_u16();
    let value = match runtime.method_area().class(class).const_pool.get_const(index) {
        Const::Long(long) => Value::Long(Long(*long)),
        _ => unreached(),
    };
    let mut frame = thread.pop_frame();
    let _const_idx = frame.read_u16();
    frame.operand_stack.push(value);
    thread.push_frame(frame);
}

} // verus!
