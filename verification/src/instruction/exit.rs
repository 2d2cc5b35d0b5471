//! Returning from a method: `return`, `areturn` and `ireturn`.
//!
//! A synchronized method leaves, on return, the monitor it held: that of its class's static
//! object when it is static, that of the object in its first local variable otherwise.

use vstd::prelude::*;

use crate::heap::sync::exit_spec;
use crate::instruction::current;
use crate::instruction::sync::identified;
use crate::java::{Reference, Value};
use crate::method_area::MethodInfo;
use crate::runtime::{Runtime, RuntimeModel, lock_of, lookup, runtime_wf};
use crate::thread::{FrameModel, Thread};

verus! {

/// Whether the frame `f` runs a method of a loaded class.
pub open spec fn runs_method(r: RuntimeModel, f: FrameModel) -> bool {
    &&& f.class < r.area.classes.len()
    &&& f.method < r.area.classes[f.class as int].methods.len()
}

/// The method the frame `f` runs.
pub open spec fn frame_method(r: RuntimeModel, f: FrameModel) -> MethodInfo {
    r.area.classes[f.class as int].methods[f.method as int]
}

/// Whether the monitor the frame `f` holds by running a synchronized method is known: the
/// static object of its class, or a reference in its first local variable.
pub open spec fn has_monitor(r: RuntimeModel, f: FrameModel) -> bool {
    if frame_method(r, f).is_static {
        lookup(r.statics, f.class) is Some
    } else {
        f.locals.len() > 0 && f.locals[0] is Reference
    }
}

/// The object whose monitor the frame `f` holds by running a synchronized method.
pub open spec fn monitor_of(r: RuntimeModel, f: FrameModel) -> u32 {
    if frame_method(r, f).is_static {
        r.statics[lookup(r.statics, f.class)->Some_0].1
    } else {
        f.locals[0]->Reference_0.0
    }
}

/// Whether the current frame can return: its method is known, and when it is synchronized,
/// this thread holds the monitor it entered.
pub open spec fn can_return(t: Seq<FrameModel>, r: RuntimeModel, me: Option<Reference>) -> bool {
    &&& t.len() > 0
    &&& runtime_wf(r)
    &&& runs_method(r, current(t))
    &&& frame_method(r, current(t)).is_synchronized ==> {
        &&& identified(me)
        &&& has_monitor(r, current(t))
        &&& lock_of(r, monitor_of(r, current(t))).holder == me->Some_0.0
    }
}

/// The runtime after the current frame returns: the monitor of a synchronized method is left.
pub open spec fn after_return(t: Seq<FrameModel>, r: RuntimeModel, me: Option<Reference>) -> RuntimeModel {
    if frame_method(r, current(t)).is_synchronized {
        let o = monitor_of(r, current(t));
        RuntimeModel { monitors: r.monitors.insert(o, exit_spec(lock_of(r, o), me->Some_0.0).0), ..r }
    } else {
        r
    }
}

/// Leave the monitor the current frame holds, if its method is synchronized.
fn exit_monitor(thread: &Thread, runtime: &mut Runtime)
    requires
        can_return(thread@, old(runtime)@, thread.spec_reference()),
    ensures
        runtime_wf(final(runtime)@),
        final(runtime)@ == after_return(thread@, old(runtime)@, thread.spec_reference()),
{
    let frame = thread.frame(thread.depth() - 1);
    let method = &runtime.method_area().class(frame.class).methods[frame.method];
    assert(method@ == frame_method(runtime@, current(thread@)));
    if method.is_synchronized {
        let monitor_ref = if method.is_static {
            match runtime.find_static_object(frame.class) {
                Some(r) => r,
                None => unreached(),
            }
        } else {
            frame.local_vars.get(0).as_reference()
        };
        let me = match thread.reference() {
            Some(r) => r,
            None => unreached(),
        };
        runtime.exit_monitor(monitor_ref, me);
    }
}

/// `return`: return from the current method, discarding its frame.
pub fn return_void(thread: &mut Thread, runtime: &mut Runtime)
    requires
        can_return(old(thread)@, old(runtime)@, old(thread).spec_reference()),
    ensures
        final(thread)@ == old(thread)@.drop_last(),
        final(thread).spec_reference() == old(thread).spec_reference(),
        final(runtime)@ == after_return(old(thread)@, old(runtime)@, old(thread).spec_reference()),
        runtime_wf(final(runtime)@),
{
    exit_monitor(thread, runtime);
    thread.pop_frame();
}

/// Whether the current frame can return the value on top to the frame below it.
pub open spec fn can_return_value(t: Seq<FrameModel>, r: RuntimeModel, me: Option<Reference>) -> bool {
    &&& can_return(t, r, me)
    &&& t.len() > 1
    &&& current(t).stack.len() > 0
}

/// The frames after the current frame returns the value on top to the frame below it.
pub open spec fn returned_value(t: Seq<FrameModel>) -> Seq<FrameModel> {
    let rest = t.drop_last();
    let v = current(t).stack.last();
    rest.drop_last().push(FrameModel { stack: rest.last().stack.push(v), ..rest.last() })
}

/// Return the value on top of the current frame to the frame below it.
fn return_value(thread: &mut Thread, runtime: &mut Runtime)
    requires
        can_return_value(old(thread)@, old(runtime)@, old(thread).spec_reference()),
    ensures
        final(thread).spec_reference() == old(thread).spec_reference(),
        final(thread)@ == returned_value(old(thread)@),
        final(runtime)@ == after_return(old(thread)@, old(runtime)@, old(thread).spec_reference()),
        runtime_wf(final(runtime)@),
{
    let depth = thread.depth();
    let value = thread.frame(depth - 1).operand_stack.peek(0);
    exit_monitor(thread, runtime);
    thread.pop_frame();
    let mut caller = thread.pop_frame();
    caller.operand_stack.push(value);
    thread.push_frame(caller);
}

/// `areturn`: return the reference on top to the calling frame.
pub fn a_return(thread: &mut Thread, runtime: &mut Runtime)
    requires
        can_return_value(old(thread)@, old(runtime)@, old(thread).spec_reference()),
    ensures
        final(thread).spec_reference() == old(thread).spec_reference(),
        final(thread)@ == returned_value(old(thread)@),
        final(runtime)@ == after_return(old(thread)@, old(runtime)@, old(thread).spec_reference()),
        runtime_wf(final(runtime)@),
{
    return_value(thread, runtime);
}

/// `ireturn`: return the int on top to the calling frame.
pub fn i_return(thread: &mut Thread, runtime: &mut Runtime)
    requires
        can_return_value(old(thread)@, old(runtime)@, old(thread).spec_reference()),
    ensures
        final(thread).spec_reference() == old(thread).spec_reference(),
        final(thread)@ == returned_value(old(thread)@),
        final(runtime)@ == after_return(old(thread)@, old(runtime)@, old(thread).spec_reference()),
        runtime_wf(final(runtime)@),
{
    return_value(thread, runtime);
}

} // verus!
