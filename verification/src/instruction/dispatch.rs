//! Running one instruction of a thread: read the opcode at the current frame's program
//! counter, check that the thread and runtime are in a state the instruction can run on, and
//! run it.
//!
//! The instructions that act on the runtime are checked here: that the constant pool entry
//! they name is of the right kind, that their operands fit the field or method it names, and
//! that the thread holds the monitors it leaves. An instruction that cannot run is reported
//! as malformed code and changes nothing. One that needs a class loaded or initialized, or a
//! monitor released, changes nothing either: the caller does what it reports and runs it
//! again.

use vstd::prelude::*;

use crate::heap::is_object;
use crate::instruction::class::{indexes_class, names_class, refers_to_value, top_instance_of};
use crate::instruction::constant::loadable;
use crate::instruction::exit::{can_return, can_return_value, frame_method, has_monitor, monitor_of, runs_method};
use crate::instruction::field::{
    field_readable,
    field_writable,
    indexes_field,
    object_slot_ok,
    ready_class,
    static_reachable,
};
use crate::instruction::invoke::{
    args_in_slots,
    args_of,
    callable,
    indexes_method,
    method_ref,
    ready_method_class,
    receiver_class,
    special_callable,
    virtual_callable,
};
use crate::instruction::step::peek_operand;
use crate::instruction::sync::identified;
use crate::instruction::{code_u16, current, has_code, has_operands, has_pool_entry, operand, pool_entry, reference_operand};
use crate::instruction::{advance, array, class, constant, exit, field, invoke, new, sync};
use crate::instruction::constant::{load_outcome, loaded_constant};
use crate::instruction::exit::{after_return, returned_value};
use crate::instruction::field::{field_put, got_field, static_got, static_put};
use crate::instruction::invoke::{NativeCall, special_invoked, virtual_invoked};
use crate::instruction::class::{cast_checked, instance_checked, named_class};
use crate::instruction::new::{made_object, made_reference_array};
use crate::instruction::step::{frame_after, frame_op, frame_ready, heap_after, heap_op, heap_ready};
use crate::instruction::sync::{entered, popped_one};
use crate::heap::sync::exit_spec;
use crate::java::{Long, Reference, Value};
use crate::method_area::const_pool::{Const, RuntimeConst};
use crate::method_area::{field_index, field_slot, find_name, instance_of_spec, method_lookup};
use crate::runtime::{Need, Runtime, RuntimeModel, lock_of, lookup, runtime_wf, statics_sound};
use crate::thread::{FrameModel, Thread, with_top};

verus! {

broadcast use vstd::std_specs::hash::group_hash_axioms;

/// The entry at `index` of the constant pool of the current frame's class, if it has one.
pub fn entry_at<'a>(thread: &Thread, runtime: &'a Runtime, index: u16) -> (res: Option<&'a Const>)
    requires
        thread@.len() > 0,
    ensures
        match res {
            Some(c) => has_pool_entry(runtime@, current(thread@), index) && c@ == pool_entry(
                runtime@,
                current(thread@),
                index,
            ),
            None => !has_pool_entry(runtime@, current(thread@), index),
        },
{
    let frame = thread.frame(thread.depth() - 1);
    let area = runtime.method_area();
    if frame.class >= area.len() {
        return None;
    }
    let pool = &area.class(frame.class).const_pool;
    pool.pool.get(&index)
}

/// The two-byte index after the opcode of the current frame, which has it.
fn index_after(thread: &Thread) -> (index: u16)
    requires
        has_code(thread@, 2),
    ensures
        index == code_u16(current(thread@)),
{
    thread.frame(thread.depth() - 1).peek_u16()
}

/// The kind of constant pool entry an instruction names by its two-byte index.
pub enum EntryKind {
    Class,
    Field,
    Method,
}

/// Whether the current frame has a two-byte index after its opcode that names an entry of
/// the kind `kind` in its class's constant pool.
pub fn names_entry(thread: &Thread, runtime: &Runtime, kind: EntryKind) -> (b: bool)
    requires
        thread@.len() > 0,
    ensures
        b == match kind {
            EntryKind::Class => indexes_class(thread@, runtime@),
            EntryKind::Field => indexes_field(thread@, runtime@),
            EntryKind::Method => indexes_method(thread@, runtime@),
        },
{
    if !crate::instruction::step::code_left(thread, 2) {
        return false;
    }
    let index = index_after(thread);
    match (entry_at(thread, runtime, index), kind) {
        (Some(Const::Class(_)), EntryKind::Class) => true,
        (Some(Const::Field(_)), EntryKind::Field) => true,
        (Some(Const::Method(_)), EntryKind::Method) => true,
        _ => false,
    }
}

/// The number of characters of `s`.
fn char_count(s: &String) -> (n: usize)
    ensures
        n == s@.len(),
{
    crate::text::str_chars(s.as_str()).len()
}

/// Whether the entry at `index` of the current frame's pool can be loaded by `ldc` or
/// `ldc_w`, with room in the heap for what it may make.
fn loadable_check(thread: &Thread, runtime: &Runtime, index: u16) -> (b: bool)
    requires
        thread@.len() > 0,
        runtime_wf(runtime@),
    ensures
        b == loadable(thread@, runtime@, index),
{
    if runtime.heap().len() as u64 > 0xFFFF_FFFC {
        return false;
    }
    match entry_at(thread, runtime, index) {
        Some(Const::Integer(_)) => true,
        Some(Const::String(s)) => char_count(&s.const_key) <= 0x3FFF_FFFF,
        Some(Const::Class(c)) => char_count(&c.const_key.name) <= 0x3FFF_FFFF,
        _ => false,
    }
}

/// Whether `ldc2_w` can load the entry its index names: a long.
fn long_entry_check(thread: &Thread, runtime: &Runtime) -> (b: bool)
    requires
        thread@.len() > 0,
    ensures
        b == (has_code(thread@, 2) && has_pool_entry(runtime@, current(thread@), code_u16(current(thread@)))
            && pool_entry(runtime@, current(thread@), code_u16(current(thread@))) is Long),
{
    if !crate::instruction::step::code_left(thread, 2) {
        return false;
    }
    let index = index_after(thread);
    match entry_at(thread, runtime, index) {
        Some(Const::Long(_)) => true,
        _ => false,
    }
}

/// Whether `ldc` can run: the one-byte index after the opcode names a loadable entry.
fn ldc_check(thread: &Thread, runtime: &Runtime) -> (b: bool)
    requires
        thread@.len() > 0,
        runtime_wf(runtime@),
    ensures
        b == (has_code(thread@, 1) && loadable(
            thread@,
            runtime@,
            current(thread@).code[current(thread@).pc] as u16,
        )),
{
    if !crate::instruction::step::code_left(thread, 1) {
        return false;
    }
    let frame = thread.frame(thread.depth() - 1);
    let index = frame.peek_u8();
    loadable_check(thread, runtime, index as u16)
}

/// Whether `ldc_w` can run: the two-byte index after the opcode names a loadable entry.
fn ldc_w_check(thread: &Thread, runtime: &Runtime) -> (b: bool)
    requires
        thread@.len() > 0,
        runtime_wf(runtime@),
    ensures
        b == (has_code(thread@, 2) && loadable(thread@, runtime@, code_u16(current(thread@)))),
{
    if !crate::instruction::step::code_left(thread, 2) {
        return false;
    }
    let index = index_after(thread);
    loadable_check(thread, runtime, index)
}

/// Whether the object the reference `depth` places below the top refers to has the slot
/// `slot`; its value there when it does.
fn object_slot(thread: &Thread, runtime: &Runtime, depth: usize, slot: usize) -> (res: Option<Value>)
    requires
        has_operands(thread@, depth + 1),
    ensures
        match res {
            Some(v) => object_slot_ok(thread@, runtime@, depth as int, slot as int)
                && v == runtime@.heap[reference_operand(thread@, depth as int)]->Object_0.fields[slot as int],
            None => !object_slot_ok(thread@, runtime@, depth as int, slot as int),
        },
{
    let reference = match peek_operand(thread, depth) {
        Some(Value::Reference(r)) => r,
        _ => return None,
    };
    if !runtime.heap().holds_object(reference) {
        return None;
    }
    let object = runtime.heap().get_object(reference);
    if slot >= object.field_count() {
        return None;
    }
    Some(object.get_field(slot))
}

/// Whether `getfield` can read its field once its class is ready.
fn readable_check(thread: &Thread, runtime: &Runtime) -> (b: bool)
    requires
        indexes_field(thread@, runtime@),
        runtime_wf(runtime@),
    ensures
        b == field_readable(thread@, runtime@),
{
    let (class, name, descriptor) = match field::resolve_field(thread, runtime) {
        Ok(k) => k,
        Err(_) => return true,
    };
    let slot = match runtime.method_area().field_slot(class, &name, &descriptor) {
        Some(k) => k,
        None => return false,
    };
    if peek_operand(thread, 0).is_none() {
        return false;
    }
    match object_slot(thread, runtime, 0, slot) {
        Some(v) => v.category() == 1,
        None => false,
    }
}

/// Whether `putfield` can write its field once its class is ready.
fn writable_check(thread: &Thread, runtime: &Runtime) -> (b: bool)
    requires
        indexes_field(thread@, runtime@),
        runtime_wf(runtime@),
    ensures
        b == field_writable(thread@, runtime@),
{
    let (class, name, descriptor) = match field::resolve_field(thread, runtime) {
        Ok(k) => k,
        Err(_) => return true,
    };
    let slot = match runtime.method_area().field_slot(class, &name, &descriptor) {
        Some(k) => k,
        None => return false,
    };
    let top = match peek_operand(thread, 1) {
        Some(_) => match peek_operand(thread, 0) {
            Some(v) => v,
            None => return false,
        },
        None => return false,
    };
    if top.category() != 1 {
        return false;
    }
    object_slot(thread, runtime, 1, slot).is_some()
}

/// Whether `getstatic` or `putstatic` can reach its field once its class is ready; for
/// `putstatic` also that a value of the first category is on top.
fn static_check(thread: &Thread, runtime: &Runtime, put: bool) -> (b: bool)
    requires
        indexes_field(thread@, runtime@),
        runtime_wf(runtime@),
    ensures
        b == (static_reachable(thread@, runtime@) && (put ==> (ready_class(thread@, runtime@) is Some ==> has_operands(
            thread@,
            1,
        ) && operand(thread@, 0).spec_category() == 1))),
{
    let (class, name, descriptor) = match field::resolve_field(thread, runtime) {
        Ok(k) => k,
        Err(_) => return true,
    };
    if runtime.method_area().static_index(class, &name, &descriptor).is_none() {
        return false;
    }
    if !runtime.statics_are_sound() || runtime.heap().len() as u64 >= 0xFFFF_FFFF {
        return false;
    }
    if put {
        match peek_operand(thread, 0) {
            Some(v) => v.category() == 1,
            None => false,
        }
    } else {
        true
    }
}

/// Whether the `n` operands on top are each of the first category.
fn slots_check(thread: &Thread, n: usize) -> (b: bool)
    requires
        thread@.len() > 0,
    ensures
        b == args_in_slots(thread@, n as int),
{
    if peek_operand(thread, 0).is_none() && n > 0 {
        return false;
    }
    let frame = thread.frame(thread.depth() - 1);
    if n > frame.operand_stack.len() {
        return false;
    }
    let mut d: usize = 0;
    while d < n
        invariant
            n <= current(thread@).stack.len(),
            frame@ == current(thread@),
            thread@.len() > 0,
            d <= n,
            forall|k: int| 0 <= k < d ==> (#[trigger] operand(thread@, k)).spec_category() == 1,
        decreases n - d,
    {
        if frame.operand_stack.peek(d).category() != 1 {
            assert(operand(thread@, d as int).spec_category() != 1);
            return false;
        }
        d += 1;
    }
    true
}

/// Whether the method at index `m` of the class at `c` can be called with `n` arguments.
fn callable_check(runtime: &Runtime, c: usize, m: usize, n: usize) -> (b: bool)
    requires
        c < runtime@.area.classes.len(),
        m < runtime@.area.classes[c as int].methods.len(),
    ensures
        b == callable(runtime@, c as int, m as int, n as int),
{
    let method = &runtime.method_area().class(c).methods[m];
    assert(method@ == runtime@.area.classes[c as int].methods[m as int]);
    if method.is_native {
        return true;
    }
    match &method.code {
        Some(code) => n <= code.max_locals as usize,
        None => false,
    }
}

/// Whether `invokespecial` can call its method once its class is ready.
fn special_check(thread: &Thread, runtime: &Runtime) -> (b: bool)
    requires
        indexes_method(thread@, runtime@),
        runtime_wf(runtime@),
    ensures
        b == special_callable(thread@, runtime@),
{
    let (class, name, descriptor) = match invoke::resolve_method(thread, runtime) {
        Ok(k) => k,
        Err(_) => return true,
    };
    let (c, m) = match runtime.method_area().find_method(class, &name, &descriptor) {
        Some(k) => k,
        None => return false,
    };
    let stack_len = thread.frame(thread.depth() - 1).operand_stack.len();
    if descriptor.parameters.len() >= stack_len {
        return false;
    }
    let n = descriptor.parameters.len() + 1;
    slots_check(thread, n) && callable_check(runtime, c, m, n)
}

/// Whether `invokevirtual` can call its method once its class is ready.
fn virtual_check(thread: &Thread, runtime: &Runtime) -> (b: bool)
    requires
        indexes_method(thread@, runtime@),
        runtime_wf(runtime@),
    ensures
        b == virtual_callable(thread@, runtime@),
{
    let (_class, name, descriptor) = match invoke::resolve_method(thread, runtime) {
        Ok(k) => k,
        Err(_) => return true,
    };
    let stack_len = thread.frame(thread.depth() - 1).operand_stack.len();
    if descriptor.parameters.len() >= stack_len {
        return false;
    }
    let n = descriptor.parameters.len() + 1;
    if !slots_check(thread, n) {
        return false;
    }
    let ghost t = thread@;
    let receiver = match peek_operand(thread, n - 1) {
        Some(Value::Reference(r)) => r,
        _ => return false,
    };
    proof {
        assert(args_of(t, n as int)[0] == operand(t, n - 1));
    }
    if !runtime.heap().holds_object(receiver) {
        return false;
    }
    let object_class = runtime.heap().get_object(receiver).class();
    if object_class >= runtime.method_area().len() {
        return false;
    }
    let (c, m) = match runtime.method_area().find_method(object_class, &name, &descriptor) {
        Some(k) => k,
        None => return false,
    };
    callable_check(runtime, c, m, n)
}

/// Whether `checkcast` (when `cast`) or `instanceof` can run: a reference on top, null or to
/// an array or an object of a loaded class, below an index naming a class; for `checkcast`,
/// when that class is loaded, the value is an instance of it.
fn class_check(thread: &Thread, runtime: &Runtime, cast: bool) -> (b: bool)
    requires
        thread@.len() > 0,
        runtime_wf(runtime@),
    ensures
        b == ({
            &&& names_class(thread@, runtime@)
            &&& refers_to_value(thread@, runtime@)
            &&& cast ==> (find_name(
                runtime@.area.classes,
                crate::instruction::class::named_class(thread@, runtime@),
            ) matches Some(c) ==> (reference_operand(thread@, 0) != 0 ==> top_instance_of(thread@, runtime@, c)))
        }),
{
    if !names_entry(thread, runtime, EntryKind::Class) {
        return false;
    }
    let reference = match peek_operand(thread, 0) {
        Some(Value::Reference(r)) => r,
        _ => return false,
    };
    if reference.0 != 0 {
        if runtime.heap().holds_object(reference) {
            if runtime.heap().get_object(reference).class() >= runtime.method_area().len() {
                return false;
            }
        } else if !runtime.heap().holds_array(reference) {
            return false;
        }
    }
    if !cast || reference.0 == 0 {
        return true;
    }
    match crate::instruction::class::named_class_index(thread, runtime) {
        Ok(c) => crate::instruction::class::refers_to_instance(runtime, reference, c),
        Err(_) => true,
    }
}

/// Whether the thread whose object is `me` can take part in monitors: it has a non-null
/// object.
fn identified_check(me: Option<Reference>) -> (b: bool)
    ensures
        b == identified(me),
{
    match me {
        Some(r) => r.0 != 0,
        None => false,
    }
}

/// Whether `monitorenter` can run: a reference on top, a thread known to monitors, and room
/// to count one more entry when this thread holds the monitor.
fn enter_check(thread: &Thread, runtime: &Runtime) -> (b: bool)
    requires
        thread@.len() > 0,
    ensures
        b == ({
            &&& crate::instruction::branch::reference_on_top(thread@)
            &&& identified(thread.spec_reference())
            &&& {
                let s = lock_of(runtime@, reference_operand(thread@, 0));
                s.holder == thread.spec_reference()->Some_0.0 ==> s.lock_count < usize::MAX
            }
        }),
{
    let reference = match peek_operand(thread, 0) {
        Some(Value::Reference(r)) => r,
        _ => return false,
    };
    let me = thread.reference();
    if !identified_check(me) {
        return false;
    }
    let (holder, count) = runtime.monitor(reference);
    match me {
        Some(r) => holder != r.0 || count < usize::MAX,
        None => false,
    }
}

/// Whether `monitorexit` can run: a reference on top to an object whose monitor this thread,
/// known to monitors, holds.
fn exit_check(thread: &Thread, runtime: &Runtime) -> (b: bool)
    requires
        thread@.len() > 0,
    ensures
        b == ({
            &&& crate::instruction::branch::reference_on_top(thread@)
            &&& identified(thread.spec_reference())
            &&& lock_of(runtime@, reference_operand(thread@, 0)).holder == thread.spec_reference()->Some_0.0
        }),
{
    let reference = match peek_operand(thread, 0) {
        Some(Value::Reference(r)) => r,
        _ => return false,
    };
    let me = thread.reference();
    if !identified_check(me) {
        return false;
    }
    let (holder, _) = runtime.monitor(reference);
    match me {
        Some(r) => holder == r.0,
        None => false,
    }
}

/// Whether the current frame can return, and when `value`, return the value on top to the
/// frame below it.
pub(crate) fn return_check(thread: &Thread, runtime: &Runtime, value: bool) -> (b: bool)
    requires
        thread@.len() > 0,
        runtime_wf(runtime@),
    ensures
        b == if value {
            can_return_value(thread@, runtime@, thread.spec_reference())
        } else {
            can_return(thread@, runtime@, thread.spec_reference())
        },
{
    let ghost t = thread@;
    let ghost r = runtime@;
    if value && (thread.depth() < 2 || peek_operand(thread, 0).is_none()) {
        return false;
    }
    let frame = thread.frame(thread.depth() - 1);
    let area = runtime.method_area();
    if frame.class >= area.len() {
        return false;
    }
    let class = area.class(frame.class);
    if frame.method >= class.methods.len() {
        return false;
    }
    let method = &class.methods[frame.method];
    assert(method@ == frame_method(r, current(t)));
    if !method.is_synchronized {
        return true;
    }
    let me = thread.reference();
    if !identified_check(me) {
        return false;
    }
    let monitor = if method.is_static {
        match runtime.find_static_object(frame.class) {
            Some(o) => o,
            None => return false,
        }
    } else {
        if frame.local_vars.len() == 0 {
            return false;
        }
        match frame.local_vars.get(0) {
            Value::Reference(o) => o,
            _ => return false,
        }
    };
    assert(monitor.0 == monitor_of(r, current(t)));
    let (holder, _) = runtime.monitor(monitor);
    match me {
        Some(m) => holder == m.0,
        None => false,
    }
}

/// What running one instruction came to.
pub enum Step {
    /// The instruction ran.
    Next,
    /// The instruction did not run: the runtime must do this first, then run it again.
    Need(Need),
    /// The instruction called this native method and took its arguments off the stack; the
    /// caller runs it and pushes what it returns with
    /// [`complete_native`](crate::instruction::invoke::complete_native).
    Native(NativeCall),
    /// The instruction cannot run on the thread and runtime as they are: its code, operands,
    /// locals or constant pool entry are not what it needs.
    Malformed,
    /// `athrow` popped this reference to a throwable; the caller unwinds the thread's frames
    /// for it with [`unwind`](crate::instruction::throw::unwind).
    Thrown(Reference),
    /// This interpreter does not implement the opcode.
    Unsupported(u8),
}

/// The result of an instruction that pushes no frame of its own, as a step.
pub open spec fn unit_result(res: Step) -> Result<(), Need> {
    match res {
        Step::Need(n) => Err(n),
        _ => Ok(()),
    }
}

/// Whether `res` is the step of an instruction that pushes no frame of its own.
pub open spec fn unit_step(res: Step) -> bool {
    res is Next || res is Need
}

/// The result of an invocation, as a step.
pub open spec fn call_result(res: Step) -> Result<Option<NativeCall>, Need> {
    match res {
        Step::Need(n) => Err(n),
        Step::Native(c) => Ok(Some(c)),
        _ => Ok(None),
    }
}

/// Whether the opcode `op` acts on the runtime.
pub open spec fn runtime_op(op: u8) -> bool {
    ||| op == 0x12 || op == 0x13 || op == 0x14
    ||| op == 0xAC || op == 0xB0 || op == 0xB1
    ||| 0xB2 <= op <= 0xB7
    ||| op == 0xBB || op == 0xBD || op == 0xBF
    ||| 0xC0 <= op <= 0xC3
}

/// Whether the instruction `op`, which acts on the runtime, can run on the frames `t`, whose
/// program counter is past the opcode, of the thread whose object is `me`, and on the runtime
/// `r`.
pub open spec fn runtime_ready(op: u8, t: Seq<FrameModel>, me: Option<Reference>, r: RuntimeModel) -> bool {
    let f = current(t);
    if op == 0x12 {
        has_code(t, 1) && loadable(t, r, f.code[f.pc] as u16)
    } else if op == 0x13 {
        has_code(t, 2) && loadable(t, r, code_u16(f))
    } else if op == 0x14 {
        has_code(t, 2) && has_pool_entry(r, f, code_u16(f)) && pool_entry(r, f, code_u16(f)) is Long
    } else if op == 0xAC || op == 0xB0 {
        can_return_value(t, r, me)
    } else if op == 0xB1 {
        can_return(t, r, me)
    } else if op == 0xB2 {
        indexes_field(t, r) && static_reachable(t, r)
    } else if op == 0xB3 {
        &&& indexes_field(t, r)
        &&& static_reachable(t, r)
        &&& ready_class(t, r) is Some ==> has_operands(t, 1) && operand(t, 0).spec_category() == 1
    } else if op == 0xB4 {
        indexes_field(t, r) && field_readable(t, r)
    } else if op == 0xB5 {
        indexes_field(t, r) && field_writable(t, r)
    } else if op == 0xB6 {
        indexes_method(t, r) && virtual_callable(t, r)
    } else if op == 0xB7 {
        indexes_method(t, r) && special_callable(t, r)
    } else if op == 0xBB {
        indexes_class(t, r) && r.heap.len() < u32::MAX
    } else if op == 0xBD {
        &&& indexes_class(t, r)
        &&& has_operands(t, 1)
        &&& operand(t, 0) is Int
        &&& crate::instruction::int_operand(t, 0) >= 0
        &&& r.heap.len() < u32::MAX
    } else if op == 0xBF {
        &&& crate::instruction::branch::reference_on_top(t)
        &&& is_object(r.heap, reference_operand(t, 0))
        &&& crate::instruction::throw::class_of(r, reference_operand(t, 0)) < r.area.classes.len()
    } else if op == 0xC0 || op == 0xC1 {
        &&& names_class(t, r)
        &&& refers_to_value(t, r)
        &&& op == 0xC0 ==> (find_name(r.area.classes, named_class(t, r)) matches Some(c) ==> (reference_operand(t, 0)
            != 0 ==> top_instance_of(t, r, c)))
    } else if op == 0xC2 {
        &&& crate::instruction::branch::reference_on_top(t)
        &&& identified(me)
        &&& {
            let s = lock_of(r, reference_operand(t, 0));
            s.holder == me->Some_0.0 ==> s.lock_count < usize::MAX
        }
    } else {
        &&& crate::instruction::branch::reference_on_top(t)
        &&& identified(me)
        &&& lock_of(r, reference_operand(t, 0)).holder == me->Some_0.0
    }
}

/// Whether the frames `t2`, runtime `r2` and step `res` are what the instruction `op`, which
/// acts on the runtime, comes to on the frames `t`, whose program counter is past the opcode,
/// of the thread whose object is `me`, and on the runtime `r`.
pub open spec fn runtime_after(
    op: u8,
    t: Seq<FrameModel>,
    me: Option<Reference>,
    r: RuntimeModel,
    t2: Seq<FrameModel>,
    r2: RuntimeModel,
    res: Step,
) -> bool {
    let f = current(t);
    if op == 0x12 {
        unit_step(res) && load_outcome(t, r, f.code[f.pc] as u16, 1, t2, r2, unit_result(res))
    } else if op == 0x13 {
        unit_step(res) && load_outcome(t, r, code_u16(f), 2, t2, r2, unit_result(res))
    } else if op == 0x14 {
        &&& res is Next
        &&& t2 == loaded_constant(t, 2, Value::Long(Long(pool_entry(r, f, code_u16(f))->Long_0)))
        &&& r2 == r
    } else if op == 0xAC || op == 0xB0 {
        res is Next && t2 == returned_value(t) && r2 == after_return(t, r, me)
    } else if op == 0xB1 {
        res is Next && t2 == t.drop_last() && r2 == after_return(t, r, me)
    } else if op == 0xB2 {
        unit_step(res) && static_got(t, r, t2, r2, unit_result(res))
    } else if op == 0xB3 {
        unit_step(res) && static_put(t, r, t2, r2, unit_result(res))
    } else if op == 0xB4 {
        unit_step(res) && got_field(t, r, t2, unit_result(res)) && r2 == r
    } else if op == 0xB5 {
        unit_step(res) && field_put(t, r, t2, r2, unit_result(res))
    } else if op == 0xB6 {
        !(res is Malformed) && !(res is Unsupported) && virtual_invoked(t, r, t2, call_result(res)) && r2 == r
    } else if op == 0xB7 {
        !(res is Malformed) && !(res is Unsupported) && special_invoked(t, r, t2, call_result(res)) && r2 == r
    } else if op == 0xBB {
        unit_step(res) && made_object(t, r, t2, r2, unit_result(res))
    } else if op == 0xBD {
        unit_step(res) && made_reference_array(t, r, t2, r2, unit_result(res))
    } else if op == 0xBF {
        res == Step::Thrown(Reference(reference_operand(t, 0))) && t2 == popped_one(t) && r2 == r
    } else if op == 0xC0 {
        unit_step(res) && cast_checked(t, r, t2, unit_result(res)) && r2 == r
    } else if op == 0xC1 {
        unit_step(res) && instance_checked(t, r, t2, unit_result(res)) && r2 == r
    } else if op == 0xC2 {
        unit_step(res) && entered(t, me, r, t2, r2, unit_result(res))
    } else {
        let o = reference_operand(t, 0);
        &&& res is Next
        &&& t2 == popped_one(t)
        &&& r2 == (RuntimeModel { monitors: r.monitors.insert(o, exit_spec(lock_of(r, o), me->Some_0.0).0), ..r })
    }
}

/// The step of an instruction that pushes no frame of its own.
fn unit_outcome(res: Result<(), Need>) -> (step: Step)
    ensures
        unit_step(step),
        unit_result(step) == res,
{
    match res {
        Ok(u) => {
            assert(res == Ok::<(), Need>(u));
            Step::Next
        },
        Err(n) => Step::Need(n),
    }
}

/// The step of an invocation.
fn call_outcome(res: Result<Option<NativeCall>, Need>) -> (step: Step)
    ensures
        !(step is Malformed) && !(step is Unsupported),
        call_result(step) == res,
{
    match res {
        Ok(None) => Step::Next,
        Ok(Some(c)) => Step::Native(c),
        Err(n) => Step::Need(n),
    }
}

/// `athrow`: pop the reference on top, to an object of a loaded class, and hand it back.
fn throw(thread: &mut Thread, runtime: &Runtime) -> (res: Step)
    requires
        old(thread)@.len() > 0,
    ensures
        final(thread).spec_reference() == old(thread).spec_reference(),
        (res is Malformed) == !runtime_ready(0xBF, old(thread)@, old(thread).spec_reference(), runtime@),
        res is Malformed ==> final(thread)@ == old(thread)@,
        !(res is Malformed) ==> res == Step::Thrown(Reference(reference_operand(old(thread)@, 0)))
            && final(thread)@ == popped_one(old(thread)@),
{
    let reference = match peek_operand(thread, 0) {
        Some(Value::Reference(r)) => r,
        _ => return Step::Malformed,
    };
    if !runtime.heap().holds_object(reference) {
        return Step::Malformed;
    }
    if runtime.heap().get_object(reference).class() >= runtime.method_area().len() {
        return Step::Malformed;
    }
    let ghost t = thread@;
    let mut frame = thread.pop_frame();
    let _popped = frame.operand_stack.pop();
    proof {
        assert(frame@ == FrameModel { stack: current(t).stack.drop_last(), ..current(t) });
    }
    thread.push_frame(frame);
    Step::Thrown(reference)
}

/// Run the instruction `op`, which acts on the runtime, when it can run.
fn run_runtime_op(thread: &mut Thread, runtime: &mut Runtime, op: u8) -> (res: Step)
    requires
        old(thread)@.len() > 0,
        runtime_wf(old(runtime)@),
        runtime_op(op),
    ensures
        final(thread).spec_reference() == old(thread).spec_reference(),
        runtime_wf(final(runtime)@),
        (res is Malformed) == !runtime_ready(op, old(thread)@, old(thread).spec_reference(), old(runtime)@),
        res is Malformed ==> final(thread)@ == old(thread)@ && final(runtime)@ == old(runtime)@,
        !(res is Malformed) ==> runtime_after(
            op,
            old(thread)@,
            old(thread).spec_reference(),
            old(runtime)@,
            final(thread)@,
            final(runtime)@,
            res,
        ),
{
    if op == 0x12 || op == 0x13 {
        let ok = if op == 0x12 { ldc_check(thread, runtime) } else { ldc_w_check(thread, runtime) };
        if !ok {
            return Step::Malformed;
        }
        let res = if op == 0x12 { constant::load_constant(thread, runtime) } else { constant::load_constant_wide(thread, runtime) };
        return unit_outcome(res);
    }
    if op == 0x14 {
        if !long_entry_check(thread, runtime) {
            return Step::Malformed;
        }
        constant::load_constant_cat_2_wide(thread, runtime);
        return Step::Next;
    }
    if op == 0xAC || op == 0xB0 || op == 0xB1 {
        if !return_check(thread, runtime, op != 0xB1) {
            return Step::Malformed;
        }
        if op == 0xAC {
            exit::i_return(thread, runtime);
        } else if op == 0xB0 {
            exit::a_return(thread, runtime);
        } else {
            exit::return_void(thread, runtime);
        }
        return Step::Next;
    }
    if 0xB2 <= op && op <= 0xB5 {
        if !names_entry(thread, runtime, EntryKind::Field) {
            return Step::Malformed;
        }
        let ok = if op == 0xB2 {
            static_check(thread, runtime, false)
        } else if op == 0xB3 {
            static_check(thread, runtime, true)
        } else if op == 0xB4 {
            readable_check(thread, runtime)
        } else {
            writable_check(thread, runtime)
        };
        if !ok {
            return Step::Malformed;
        }
        let res = if op == 0xB2 {
            field::get_static(thread, runtime)
        } else if op == 0xB3 {
            field::put_static(thread, runtime)
        } else if op == 0xB4 {
            field::get_field(thread, runtime)
        } else {
            field::put_field(thread, runtime)
        };
        return unit_outcome(res);
    }
    if op == 0xB6 || op == 0xB7 {
        if !names_entry(thread, runtime, EntryKind::Method) {
            return Step::Malformed;
        }
        let ok = if op == 0xB6 { virtual_check(thread, runtime) } else { special_check(thread, runtime) };
        if !ok {
            return Step::Malformed;
        }
        let res = if op == 0xB6 { invoke::invoke_virtual(thread, runtime) } else { invoke::invoke_special(thread, runtime) };
        return call_outcome(res);
    }
    if op == 0xBB || op == 0xBD {
        if !names_entry(thread, runtime, EntryKind::Class) || runtime.heap().len() as u64 >= 0xFFFF_FFFF {
            return Step::Malformed;
        }
        if op == 0xBB {
            return unit_outcome(new::new(thread, runtime));
        }
        match peek_operand(thread, 0) {
            Some(Value::Int(count)) => {
                if count.0 < 0 {
                    return Step::Malformed;
                }
            },
            _ => return Step::Malformed,
        }
        return unit_outcome(new::a_new_array(thread, runtime));
    }
    if op == 0xBF {
        return throw(thread, runtime);
    }
    if op == 0xC0 || op == 0xC1 {
        if !class_check(thread, runtime, op == 0xC0) {
            return Step::Malformed;
        }
        let res = if op == 0xC0 { class::check_cast(thread, runtime) } else { class::instance_of(thread, runtime) };
        return unit_outcome(res);
    }
    if op == 0xC2 {
        if !enter_check(thread, runtime) {
            return Step::Malformed;
        }
        return unit_outcome(sync::monitor_enter(thread, runtime));
    }
    if !exit_check(thread, runtime) {
        return Step::Malformed;
    }
    sync::monitor_exit(thread, runtime);
    Step::Next
}

/// The opcode at the program counter of the current frame of `t`.
pub open spec fn opcode(t: Seq<FrameModel>) -> u8 {
    current(t).code[current(t).pc]
}

/// The frames `t` with the current frame's program counter past its opcode.
pub open spec fn past_opcode(t: Seq<FrameModel>) -> Seq<FrameModel> {
    with_top(t, advance(current(t), 1))
}

/// Whether the frames `t2`, runtime `r2` and step `res` are what running one instruction comes
/// to on the frames `t` of the thread whose object is `me` and on the runtime `r`: the
/// instruction at the current frame's program counter runs when it can, and otherwise
/// nothing changes.
pub open spec fn executed(
    t: Seq<FrameModel>,
    me: Option<Reference>,
    r: RuntimeModel,
    t2: Seq<FrameModel>,
    r2: RuntimeModel,
    res: Step,
) -> bool {
    let unchanged = t2 == t && r2 == r;
    if !has_code(t, 1) {
        res is Malformed && unchanged
    } else {
        let op = opcode(t);
        let t1 = past_opcode(t);
        if frame_op(op) {
            if frame_ready(op, t1) {
                res is Next && t2 == frame_after(op, t1) && r2 == r
            } else {
                res is Malformed && unchanged
            }
        } else if heap_op(op) {
            if heap_ready(op, t1, r.heap) {
                res is Next && heap_after(op, t1, r.heap, t2, r2.heap) && r2 == (RuntimeModel { heap: r2.heap, ..r })
            } else {
                res is Malformed && unchanged
            }
        } else if runtime_op(op) {
            if runtime_ready(op, t1, me, r) {
                if res is Need {
                    t2 == t && runtime_after(op, t1, me, r, t1, r2, res)
                } else {
                    runtime_after(op, t1, me, r, t2, r2, res)
                }
            } else {
                res is Malformed && unchanged
            }
        } else {
            res matches Step::Unsupported(o) && o == op && unchanged
        }
    }
}

/// Move the current frame's program counter back by one byte.
fn back_one(thread: &mut Thread)
    requires
        old(thread)@.len() > 0,
        current(old(thread)@).pc >= 1,
    ensures
        final(thread).spec_reference() == old(thread).spec_reference(),
        final(thread)@ == with_top(old(thread)@, FrameModel { pc: current(old(thread)@).pc - 1, ..current(old(thread)@) }),
{
    let mut frame = thread.pop_frame();
    frame.pc = frame.pc - 1;
    thread.push_frame(frame);
}

/// Run the instruction at the program counter of the current frame of `thread`: see
/// [`executed`] for what it comes to.
pub fn instruction(thread: &mut Thread, runtime: &mut Runtime) -> (res: Step)
    requires
        old(thread)@.len() > 0,
        runtime_wf(old(runtime)@),
    ensures
        final(thread).spec_reference() == old(thread).spec_reference(),
        runtime_wf(final(runtime)@),
        executed(old(thread)@, old(thread).spec_reference(), old(runtime)@, final(thread)@, final(runtime)@, res),
{
    let ghost t = thread@;
    let ghost r = runtime@;
    if !crate::instruction::step::code_left(thread, 1) {
        return Step::Malformed;
    }
    let mut frame = thread.pop_frame();
    let op = frame.read_u8();
    thread.push_frame(frame);
    let ghost t1 = thread@;
    assert(t1 == past_opcode(t));
    assert(op == opcode(t));
    proof {
        assert(with_top(t1, FrameModel { pc: current(t1).pc - 1, ..current(t1) }) =~= t);
    }
    if crate::instruction::step::is_frame_op(op) {
        if crate::instruction::step::run_frame_op(thread, op) {
            return Step::Next;
        }
        back_one(thread);
        return Step::Malformed;
    }
    if crate::instruction::step::is_heap_op(op) {
        let ran = crate::instruction::step::run_heap_op(thread, runtime.heap_mut(), op);
        if ran {
            return Step::Next;
        }
        back_one(thread);
        return Step::Malformed;
    }
    if is_runtime_op(op) {
        let res = run_runtime_op(thread, runtime, op);
        match res {
            Step::Malformed | Step::Need(_) => {
                back_one(thread);
            },
            _ => {},
        }
        return res;
    }
    back_one(thread);
    Step::Unsupported(op)
}

/// Whether the opcode `op` acts on the runtime.
fn is_runtime_op(op: u8) -> (b: bool)
    ensures
        b == runtime_op(op),
{
    op == 0x12 || op == 0x13 || op == 0x14 || op == 0xAC || op == 0xB0 || op == 0xB1 || (0xB2 <= op && op <= 0xB7)
        || op == 0xBB || op == 0xBD || op == 0xBF || (0xC0 <= op && op <= 0xC3)
}

} // verus!
