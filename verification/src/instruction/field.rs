//! Reading and writing fields: `getfield`, `putfield`, `getstatic` and `putstatic`.
//!
//! Each names a field in the constant pool by its class, name and type. When that class is
//! not loaded, or not initialized, the instruction does nothing and reports it; the caller
//! does what is needed and runs the instruction again. Fields are read and written one slot
//! at a time, as values of the first category.

use vstd::prelude::*;

use crate::heap::{HeapedModel, is_object};
use crate::heap::allocator::ObjectModel;
use crate::instruction::{code_u16, current, has_code, has_operands, has_pool_entry, operand, pool_entry, reference_operand};
use crate::java::{FieldType, Value};
use crate::method_area::const_pool::RuntimeConst;
use crate::method_area::{field_index, field_slot, find_name, first_uninitialized, lemma_field_index_bound, lemma_find_name_bounds};
use crate::runtime::{Need, Runtime, RuntimeModel, runtime_wf, static_ref, statics_ready, statics_sound};
use crate::thread::{FrameModel, Thread, with_top};

verus! {

/// Whether the current frame has a two-byte index after its opcode that names a field in its
/// class's constant pool.
pub open spec fn indexes_field(t: Seq<FrameModel>, r: RuntimeModel) -> bool {
    &&& has_code(t, 2)
    &&& has_pool_entry(r, current(t), code_u16(current(t)))
    &&& pool_entry(r, current(t), code_u16(current(t))) is Field
}

/// The field reference named by the index after the current opcode.
pub open spec fn field_ref(t: Seq<FrameModel>, r: RuntimeModel) -> RuntimeConst {
    pool_entry(r, current(t), code_u16(current(t)))
}

/// The class a field reference names, if it was loaded and all the classes from the root of
/// its hierarchy down to it were initialized.
pub open spec fn ready_class(t: Seq<FrameModel>, r: RuntimeModel) -> Option<int> {
    match find_name(r.area.classes, field_ref(t, r)->Field_0) {
        Some(c) => if first_uninitialized(r.area, c) is None {
            Some(c)
        } else {
            None
        },
        None => None,
    }
}

/// What resolving the field's class reports when it is not ready: the class to load, or the
/// class to initialize.
pub open spec fn reports_need(t: Seq<FrameModel>, r: RuntimeModel, res: Result<(), Need>) -> bool {
    match find_name(r.area.classes, field_ref(t, r)->Field_0) {
        None => res matches Err(Need::Class(name)) && name@ == field_ref(t, r)->Field_0,
        Some(c) => match first_uninitialized(r.area, c) {
            Some(k) => res matches Err(Need::Initialization(i)) && i == k,
            None => false,
        },
    }
}

/// The slot, in objects of the class at `c`, of the instance field a field reference names.
pub open spec fn instance_slot(t: Seq<FrameModel>, r: RuntimeModel, c: int) -> int {
    field_slot(r.area.classes, c, field_ref(t, r)->Field_1, field_ref(t, r)->Field_2)->Some_0
}

/// The index, among the static fields of the class at `c`, of the field a field reference
/// names.
pub open spec fn static_slot(t: Seq<FrameModel>, r: RuntimeModel, c: int) -> int {
    field_index(r.area.classes[c].static_fields, field_ref(t, r)->Field_1, field_ref(t, r)->Field_2)->Some_0
}

/// Whether the object the reference `depth` places below the top refers to has a slot `slot`
/// holding a value of the first category.
pub open spec fn object_slot_ok(t: Seq<FrameModel>, r: RuntimeModel, depth: int, slot: int) -> bool {
    &&& operand(t, depth) is Reference
    &&& is_object(r.heap, reference_operand(t, depth))
    &&& 0 <= slot < r.heap[reference_operand(t, depth)]->Object_0.fields.len()
}

/// Whether `getfield` can read its field once the class is ready: the class or a super class
/// declares it, and the reference on top refers to an object with that slot holding a value of
/// the first category.
pub open spec fn field_readable(t: Seq<FrameModel>, r: RuntimeModel) -> bool {
    ready_class(t, r) matches Some(c) ==> {
        &&& field_slot(r.area.classes, c, field_ref(t, r)->Field_1, field_ref(t, r)->Field_2) is Some
        &&& has_operands(t, 1)
        &&& object_slot_ok(t, r, 0, instance_slot(t, r, c))
        &&& r.heap[reference_operand(t, 0)]->Object_0.fields[instance_slot(t, r, c)].spec_category() == 1
    }
}

/// Whether `putfield` can write its field once the class is ready: the class or a super class
/// declares it, a value of the first category is on top, and below it a reference to an
/// object with that slot.
pub open spec fn field_writable(t: Seq<FrameModel>, r: RuntimeModel) -> bool {
    ready_class(t, r) matches Some(c) ==> {
        &&& field_slot(r.area.classes, c, field_ref(t, r)->Field_1, field_ref(t, r)->Field_2) is Some
        &&& has_operands(t, 2)
        &&& operand(t, 0).spec_category() == 1
        &&& object_slot_ok(t, r, 1, instance_slot(t, r, c))
    }
}

/// Whether `getstatic` or `putstatic` can reach its field once the class is ready: the class
/// itself declares it, the objects holding static fields are sound, and the heap has room.
pub open spec fn static_reachable(t: Seq<FrameModel>, r: RuntimeModel) -> bool {
    ready_class(t, r) matches Some(c) ==> {
        &&& field_index(r.area.classes[c].static_fields, field_ref(t, r)->Field_1, field_ref(t, r)->Field_2) is Some
        &&& statics_sound(r)
        &&& r.heap.len() < u32::MAX
    }
}

/// The frame `f` past the index, with its top `n` operands replaced by the values `vs`.
pub open spec fn after_field(f: FrameModel, n: int, vs: Seq<Value>) -> FrameModel {
    FrameModel { pc: f.pc + 2, stack: f.stack.subrange(0, f.stack.len() - n) + vs, ..f }
}

/// Look up the class of the field named by the index after the current opcode, and the
/// field's name and type, without reading the index.
pub(crate) fn resolve_field(thread: &Thread, runtime: &Runtime) -> (res: Result<(usize, String, FieldType), Need>)
    requires
        indexes_field(thread@, runtime@),
        runtime_wf(runtime@),
    ensures
        match ready_class(thread@, runtime@) {
            Some(c) => res matches Ok((k, name, descriptor)) && k == c && c < runtime@.area.classes.len()
                && name@ == field_ref(thread@, runtime@)->Field_1 && descriptor@ == field_ref(thread@, runtime@)->Field_2,
            None => res matches Err(need) && reports_need(thread@, runtime@, Err(need)),
        },
{
    let frame = thread.frame(thread.depth() - 1);
    let index = frame.peek_u16();
    let area = runtime.method_area();
    let pool = &area.class(frame.class).const_pool;
    let reference = pool.get_field(index);
    proof {
        lemma_find_name_bounds(runtime@.area.classes, field_ref(thread@, runtime@)->Field_0);
    }
    let class = match area.find_class(&reference.const_key.class) {
        Some(c) => c,
        None => return Err(Need::Class(reference.const_key.class.clone())),
    };
    match area.next_to_initialize(class) {
        Some(k) => return Err(Need::Initialization(k)),
        None => {},
    }
    Ok((class, reference.const_key.name.clone(), reference.const_key.descriptor.duplicate()))
}

/// What `getfield` comes to on the frames `t` and the runtime `r`: the frames `t2` after it,
/// and its result `res`.
pub open spec fn got_field(t: Seq<FrameModel>, r: RuntimeModel, t2: Seq<FrameModel>, res: Result<(), Need>) -> bool {
    match ready_class(t, r) {
        None => reports_need(t, r, res) && t2 == t,
        Some(c) => res is Ok && t2 == with_top(
            t,
            after_field(
                current(t),
                1,
                seq![r.heap[reference_operand(t, 0)]->Object_0.fields[instance_slot(t, r, c)]],
            ),
        ),
    }
}

/// `getfield`: replace the reference on top by the value of the field, named by the index
/// after the opcode, of the object it refers to.
pub fn get_field(thread: &mut Thread, runtime: &Runtime) -> (res: Result<(), Need>)
    requires
        indexes_field(old(thread)@, runtime@),
        runtime_wf(runtime@),
        field_readable(old(thread)@, runtime@),
    ensures
        final(thread).spec_reference() == old(thread).spec_reference(),
        got_field(old(thread)@, runtime@, final(thread)@, res),
{
    let (class, name, descriptor) = match resolve_field(thread, runtime) {
        Ok(k) => k,
        Err(need) => return Err(need),
    };
    let slot = match runtime.method_area().field_slot(class, &name, &descriptor) {
        Some(k) => k,
        None => unreached(),
    };
    let ghost t = thread@;
    let mut frame = thread.pop_frame();
    let _index = frame.read_u16();
    let reference = frame.operand_stack.pop().as_reference();
    let value = runtime.heap().get_object(reference).get_field(slot);
    frame.operand_stack.push_cat_one(value);
    thread.push_frame(frame);
    proof {
        let f = current(t);
        assert(f.stack.subrange(0, f.stack.len() - 1) + seq![value] =~= f.stack.drop_last().push(value));
    }
    Ok(())
}

/// What `putfield` comes to on the frames `t` and the runtime `r`: the frames `t2` and runtime
/// `r2` after it, and its result `res`.
pub open spec fn field_put(t: Seq<FrameModel>, r: RuntimeModel, t2: Seq<FrameModel>, r2: RuntimeModel, res: Result<(), Need>) -> bool {
    match ready_class(t, r) {
        None => reports_need(t, r, res) && t2 == t && r2 == r,
        Some(c) => {
            let o = reference_operand(t, 1);
            let object = r.heap[o]->Object_0;
            &&& res is Ok
            &&& t2 == with_top(t, after_field(current(t), 2, Seq::empty()))
            &&& r2 == (RuntimeModel {
                heap: r.heap.insert(
                    o,
                    HeapedModel::Object(ObjectModel {
                        fields: object.fields.update(instance_slot(t, r, c), operand(t, 0)),
                        ..object
                    }),
                ),
                ..r
            })
        },
    }
}

/// `putfield`: pop a value and the reference below it, and set the field, named by the index
/// after the opcode, of the object the reference refers to.
pub fn put_field(thread: &mut Thread, runtime: &mut Runtime) -> (res: Result<(), Need>)
    requires
        indexes_field(old(thread)@, old(runtime)@),
        runtime_wf(old(runtime)@),
        field_writable(old(thread)@, old(runtime)@),
    ensures
        final(thread).spec_reference() == old(thread).spec_reference(),
        runtime_wf(final(runtime)@),
        field_put(old(thread)@, old(runtime)@, final(thread)@, final(runtime)@, res),
{
    let (class, name, descriptor) = match resolve_field(thread, runtime) {
        Ok(k) => k,
        Err(need) => return Err(need),
    };
    let slot = match runtime.method_area().field_slot(class, &name, &descriptor) {
        Some(k) => k,
        None => unreached(),
    };
    let ghost t = thread@;
    let mut frame = thread.pop_frame();
    let _index = frame.read_u16();
    let value = frame.operand_stack.pop_cat_one();
    let reference = frame.operand_stack.pop().as_reference();
    runtime.set_field(reference, slot, value);
    thread.push_frame(frame);
    proof {
        let f = current(t);
        assert(f.stack.subrange(0, f.stack.len() - 2) + Seq::<Value>::empty() =~= f.stack.drop_last().drop_last());
    }
    Ok(())
}

/// What `getstatic` comes to on the frames `t` and the runtime `r`: the frames `t2` and
/// runtime `r2` after it, and its result `res`.
pub open spec fn static_got(t: Seq<FrameModel>, r: RuntimeModel, t2: Seq<FrameModel>, r2: RuntimeModel, res: Result<(), Need>) -> bool {
    match ready_class(t, r) {
        None => reports_need(t, r, res) && t2 == t && r2 == r,
        Some(c) => {
            &&& res is Ok
            &&& statics_ready(r, r2, c as usize)
            &&& statics_sound(r2)
            &&& t2 == with_top(
                t,
                after_field(
                    current(t),
                    0,
                    seq![r2.heap[static_ref(r2, c as usize)->Some_0]->Object_0.fields[static_slot(t, r, c)]],
                ),
            )
        },
    }
}

/// `getstatic`: push the value of the static field named by the index after the opcode,
/// making the object holding its class's static fields if it was not made yet.
pub fn get_static(thread: &mut Thread, runtime: &mut Runtime) -> (res: Result<(), Need>)
    requires
        indexes_field(old(thread)@, old(runtime)@),
        runtime_wf(old(runtime)@),
        static_reachable(old(thread)@, old(runtime)@),
    ensures
        final(thread).spec_reference() == old(thread).spec_reference(),
        runtime_wf(final(runtime)@),
        static_got(old(thread)@, old(runtime)@, final(thread)@, final(runtime)@, res),
{
    let (class, name, descriptor) = match resolve_field(thread, runtime) {
        Ok(k) => k,
        Err(need) => return Err(need),
    };
    let index = match runtime.method_area().static_index(class, &name, &descriptor) {
        Some(k) => k,
        None => unreached(),
    };
    let ghost t = thread@;
    let ghost before = runtime@;
    proof {
        lemma_field_index_bound(before.area.classes[class as int].static_fields, name@, descriptor@);
    }
    let reference = runtime.static_object(class);
    proof {
        lemma_static_object_sound(before, runtime@, class, reference.0);
    }
    let value = runtime.heap().get_object(reference).get_field(index);
    let mut frame = thread.pop_frame();
    let _index = frame.read_u16();
    frame.operand_stack.push(value);
    thread.push_frame(frame);
    proof {
        let f = current(t);
        assert(f.stack.subrange(0, f.stack.len() - 0) + seq![value] =~= f.stack.push(value));
    }
    Ok(())
}

/// What `putstatic` comes to on the frames `t` and the runtime `r`: the frames `t2` and
/// runtime `r2` after it, and its result `res`.
pub open spec fn static_put(t: Seq<FrameModel>, r: RuntimeModel, t2: Seq<FrameModel>, r2: RuntimeModel, res: Result<(), Need>) -> bool {
    match ready_class(t, r) {
        None => reports_need(t, r, res) && t2 == t && r2 == r,
        Some(c) => {
            &&& res is Ok
            &&& t2 == with_top(t, after_field(current(t), 1, Seq::empty()))
            &&& exists|mid: RuntimeModel| {
                &&& #[trigger] statics_ready(r, mid, c as usize)
                &&& statics_sound(mid)
                &&& {
                    let o = static_ref(mid, c as usize)->Some_0;
                    let object = mid.heap[o]->Object_0;
                    r2 == (RuntimeModel {
                        heap: mid.heap.insert(
                            o,
                            HeapedModel::Object(ObjectModel {
                                fields: object.fields.update(static_slot(t, r, c), operand(t, 0)),
                                ..object
                            }),
                        ),
                        ..mid
                    })
                }
            }
        },
    }
}

/// `putstatic`: pop a value into the static field named by the index after the opcode,
/// making the object holding its class's static fields if it was not made yet.
pub fn put_static(thread: &mut Thread, runtime: &mut Runtime) -> (res: Result<(), Need>)
    requires
        indexes_field(old(thread)@, old(runtime)@),
        runtime_wf(old(runtime)@),
        static_reachable(old(thread)@, old(runtime)@),
        ready_class(old(thread)@, old(runtime)@) is Some ==> has_operands(old(thread)@, 1)
            && operand(old(thread)@, 0).spec_category() == 1,
    ensures
        final(thread).spec_reference() == old(thread).spec_reference(),
        runtime_wf(final(runtime)@),
        static_put(old(thread)@, old(runtime)@, final(thread)@, final(runtime)@, res),
{
    let (class, name, descriptor) = match resolve_field(thread, runtime) {
        Ok(k) => k,
        Err(need) => return Err(need),
    };
    let index = match runtime.method_area().static_index(class, &name, &descriptor) {
        Some(k) => k,
        None => unreached(),
    };
    let ghost t = thread@;
    let ghost before = runtime@;
    proof {
        lemma_field_index_bound(before.area.classes[class as int].static_fields, name@, descriptor@);
    }
    let reference = runtime.static_object(class);
    let ghost mid = runtime@;
    proof {
        lemma_static_object_sound(before, mid, class, reference.0);
    }
    let mut frame = thread.pop_frame();
    let _index = frame.read_u16();
    let value = frame.operand_stack.pop_cat_one();
    runtime.set_field(reference, index, value);
    thread.push_frame(frame);
    proof {
        let f = current(t);
        assert(f.stack.subrange(0, f.stack.len() - 1) + Seq::<Value>::empty() =~= f.stack.drop_last());
        assert(statics_ready(before, mid, class));
        let c = ready_class(t, before)->Some_0;
        assert(c == class);
        assert(static_slot(t, before, c) == index);
        assert(static_ref(mid, class) == Some(reference.0));
        assert((c as usize) == class);
        assert(statics_ready(before, mid, c as usize));
        let object = mid.heap[reference.0]->Object_0;
        assert(runtime@ == (RuntimeModel {
            heap: mid.heap.insert(
                reference.0,
                HeapedModel::Object(ObjectModel {
                    fields: object.fields.update(static_slot(t, before, c), operand(t, 0)),
                    ..object
                }),
            ),
            ..mid
        }));
    }
    Ok(())
}

/// After the object holding a class's static fields is asked for, the objects holding static
/// fields are still sound, the class's is one of them, and it has been made if it was not.
proof fn lemma_static_object_sound(before: RuntimeModel, after: RuntimeModel, class: usize, r: u32)
    requires
        statics_sound(before),
        class < before.area.classes.len(),
        before.area.classes[class as int].static_fields.len() > 0,
        static_ref(after, class) == Some(r),
        match crate::runtime::lookup(before.statics, class) {
            Some(i) => r == before.statics[i].1 && after == before,
            None => {
                &&& !before.heap.contains_key(r)
                &&& r != 0
                &&& after == (RuntimeModel {
                    heap: before.heap.insert(
                        r,
                        HeapedModel::Object(ObjectModel {
                            class,
                            fields: crate::runtime::static_slots(before.area.classes, class as int),
                        }),
                    ),
                    statics: before.statics.push((class, r)),
                    ..before
                })
            },
        },
    ensures
        statics_sound(after),
        statics_ready(before, after, class),
        is_object(after.heap, r),
        after.heap[r]->Object_0.fields.len() == after.area.classes[class as int].static_fields.len(),
{
    match crate::runtime::lookup(before.statics, class) {
        Some(i) => {
            crate::runtime::lemma_lookup_bounds(before.statics, class);
            assert(before.statics[i] == (class, r)) by {
                assert(before.statics[i].0 == class);
            }
        },
        None => {
            crate::runtime::lemma_lookup_bounds(before.statics, class);
            assert(crate::runtime::made_static_object(before, after, class, r));
            assert forall|i: int| 0 <= i < after.statics.len() implies {
                let (c, o) = #[trigger] after.statics[i];
                &&& c < after.area.classes.len()
                &&& is_object(after.heap, o)
                &&& after.heap[o]->Object_0.fields.len() == after.area.classes[c as int].static_fields.len()
            } by {
                if i < before.statics.len() {
                    assert(after.statics[i] == before.statics[i]);
                    let (c, o) = before.statics[i];
                    assert(before.heap.contains_key(o));
                }
            }
        },
    }
}

} // verus!
