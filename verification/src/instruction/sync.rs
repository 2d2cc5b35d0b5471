//! Entering and leaving the monitor of an object: `monitorenter` and `monitorexit`.
//!
//! A thread is known to its monitors by its `java.lang.Thread` object. A monitor held by
//! another thread is not entered: the instruction does nothing and reports it, and the caller
//! runs it again once the monitor is released.

use vstd::prelude::*;

use crate::heap::sync::{Entry, enter_spec, exit_spec};
use crate::instruction::branch::reference_on_top;
use crate::instruction::{current, reference_operand};
use crate::java::Reference;
use crate::runtime::{Need, Runtime, RuntimeModel, lock_of, runtime_wf};
use crate::thread::{FrameModel, Thread, with_top};

verus! {

/// The frames after popping the operand on top of the current frame.
pub open spec fn popped_one(t: Seq<FrameModel>) -> Seq<FrameModel> {
    with_top(t, FrameModel { stack: current(t).stack.drop_last(), ..current(t) })
}

/// Whether the thread is known to monitors: it has a non-null object.
pub open spec fn identified(thread: Option<Reference>) -> bool {
    thread matches Some(r) && r.0 != 0
}

/// What `monitorenter` comes to on the frames `t` of the thread whose object is `me` and on the
/// runtime `r`: the frames `t2` and runtime `r2` after it, and its result `res`.
pub open spec fn entered(
    t: Seq<FrameModel>,
    me: Option<Reference>,
    r: RuntimeModel,
    t2: Seq<FrameModel>,
    r2: RuntimeModel,
    res: Result<(), Need>,
) -> bool {
    let o = reference_operand(t, 0);
    let (next, entry) = enter_spec(lock_of(r, o), me->Some_0.0);
    if entry == Entry::Blocked {
        &&& res matches Err(Need::Monitor(m)) && m.0 == o
        &&& t2 == t
        &&& r2 == r
    } else {
        &&& res is Ok
        &&& t2 == popped_one(t)
        &&& r2 == (RuntimeModel { monitors: r.monitors.insert(o, next), ..r })
    }
}

/// `monitorenter`: enter the monitor of the object whose reference is on top, popping it.
pub fn monitor_enter(thread: &mut Thread, runtime: &mut Runtime) -> (res: Result<(), Need>)
    requires
        reference_on_top(old(thread)@),
        identified(old(thread).spec_reference()),
        runtime_wf(old(runtime)@),
        ({
            let s = lock_of(old(runtime)@, reference_operand(old(thread)@, 0));
            s.holder == old(thread).spec_reference()->Some_0.0 ==> s.lock_count < usize::MAX
        }),
    ensures
        final(thread).spec_reference() == old(thread).spec_reference(),
        runtime_wf(final(runtime)@),
        entered(old(thread)@, old(thread).spec_reference(), old(runtime)@, final(thread)@, final(runtime)@, res),
{
    let depth = thread.depth();
    let lock_ref = thread.frame(depth - 1).operand_stack.peek(0).as_reference();
    let me = match thread.reference() {
        Some(r) => r,
        None => unreached(),
    };
    let (holder, _) = runtime.monitor(lock_ref);
    if holder != 0 && holder != me.0 {
        return Err(Need::Monitor(lock_ref));
    }
    let ghost t = thread@;
    let mut frame = thread.pop_frame();
    let _lock = frame.operand_stack.pop();
    proof {
        assert(frame@ == FrameModel { stack: current(t).stack.drop_last(), ..current(t) });
    }
    thread.push_frame(frame);
    runtime.enter_monitor(lock_ref, me);
    Ok(())
}

/// `monitorexit`: leave the monitor, held by this thread, of the object whose reference is on
/// top, popping it.
pub fn monitor_exit(thread: &mut Thread, runtime: &mut Runtime)
    requires
        reference_on_top(old(thread)@),
        identified(old(thread).spec_reference()),
        runtime_wf(old(runtime)@),
        lock_of(old(runtime)@, reference_operand(old(thread)@, 0)).holder == old(thread).spec_reference()->Some_0.0,
    ensures
        final(thread).spec_reference() == old(thread).spec_reference(),
        runtime_wf(final(runtime)@),
        final(thread)@ == popped_one(old(thread)@),
        final(runtime)@ == (RuntimeModel {
            monitors: old(runtime)@.monitors.insert(
                reference_operand(old(thread)@, 0),
                exit_spec(
                    lock_of(old(runtime)@, reference_operand(old(thread)@, 0)),
                    old(thread).spec_reference()->Some_0.0,
                ).0,
            ),
            ..old(runtime)@
        }),
{
    let me = match thread.reference() {
        Some(r) => r,
        None => unreached(),
    };
    let ghost t = thread@;
    let mut frame = thread.pop_frame();
    let lock_ref = frame.operand_stack.pop().as_reference();
    proof {
        assert(frame@ == FrameModel { stack: current(t).stack.drop_last(), ..current(t) });
    }
    thread.push_frame(frame);
    runtime.exit_monitor(lock_ref, me);
}

} // verus!
