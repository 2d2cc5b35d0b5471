//! Throwing: `athrow` pops the reference to a throwable, and the frames of the thread are
//! unwound until one whose method has a handler for it.
//!
//! A frame's handlers are tried in the order of its exception table: the first whose range
//! holds the frame's program counter (after its start, up to its end included) and that
//! catches any throwable, or a class the throwable is an instance of, takes it: the frame
//! goes on at the handler with the reference pushed. A frame without one returns, leaving the
//! monitor of a synchronized method, and the frame below is tried. When no frame takes it,
//! the thread runs `stackTraceAndExit()V` of the throwable's class on it.
//!
//! A handler naming a class that is not loaded stops the unwinding where it is; the caller
//! loads it and goes on unwinding.

use vstd::prelude::*;

use crate::class_file::ExHandler;
use crate::heap::{HeapedModel, is_object};
use crate::instruction::current;
use crate::instruction::exit::{after_return, can_return, frame_method, runs_method};
use crate::java::{Int, Reference, Value};
use crate::java::method_type::MethodModel;
use crate::method_area::const_pool::{Const, RuntimeConst};
use crate::method_area::{MethodInfo, find_name, instance_of_spec, method_lookup, void_method};
use crate::runtime::{Need, Runtime, RuntimeModel, runtime_wf};
use crate::thread::{Frame, FrameModel, Thread, with_top};

verus! {

broadcast use vstd::std_specs::hash::group_hash_axioms;

/// What looking through an exception table came to.
pub enum Search {
    /// The handler at this program counter takes the throwable.
    Found(u16),
    /// No handler takes it.
    NotFound,
    /// A handler in range names this class, which is not loaded.
    NeedClass(Seq<char>),
    /// A handler in range names its class by an entry that is not a class.
    Bad,
}

/// The class of the object `o` refers to.
pub open spec fn class_of(r: RuntimeModel, o: u32) -> int {
    r.heap[o]->Object_0.class as int
}

/// Whether the handler `h` holds the program counter `pc` in its range.
pub open spec fn in_range(h: ExHandler, pc: int) -> bool {
    h.start_pc < pc && pc <= h.end_pc
}

/// What looking through `handlers`, from the first, comes to for a throwable of the class at
/// `thrown`, in a frame at `pc` of a method of the class at `class`.
pub open spec fn search(handlers: Seq<ExHandler>, pc: int, r: RuntimeModel, class: int, thrown: int) -> Search
    decreases handlers.len(),
{
    if handlers.len() == 0 {
        Search::NotFound
    } else {
        let h = handlers[0];
        let rest = search(handlers.drop_first(), pc, r, class, thrown);
        if !in_range(h, pc) {
            rest
        } else if h.catch_type == 0 {
            Search::Found(h.handler_pc)
        } else {
            let pool = r.area.classes[class].const_pool;
            if !pool.contains_key(h.catch_type) || !(pool[h.catch_type] is Class) {
                Search::Bad
            } else {
                let name = pool[h.catch_type]->Class_0;
                match find_name(r.area.classes, name) {
                    None => Search::NeedClass(name),
                    Some(c) => if instance_of_spec(r.area.classes, thrown, c) {
                        Search::Found(h.handler_pc)
                    } else {
                        rest
                    },
                }
            }
        }
    }
}

/// Whether the frame `f` runs a method with code, of a loaded class.
pub open spec fn has_method_code(r: RuntimeModel, f: FrameModel) -> bool {
    runs_method(r, f) && frame_method(r, f).code is Some
}

/// What unwinding the frames `t` of the thread whose object is `me`, in the runtime `r`, for
/// the throwable `o` comes to.
pub enum Unwound {
    /// A frame took the throwable.
    Caught,
    /// No frame took it; the thread has no frames left.
    Uncaught,
    /// The unwinding stopped where it is: the runtime must do this first.
    Need(Need),
    /// A frame cannot be unwound: its method has no code, a handler's class entry is not a
    /// class, or it cannot return.
    Malformed,
}

/// Whether the frames `t2`, runtime `r2` and outcome `res` are what unwinding the frames `t` of
/// the thread whose object is `me`, in the runtime `r`, for the throwable `o` comes to.
pub open spec fn unwound(
    t: Seq<FrameModel>,
    me: Option<Reference>,
    r: RuntimeModel,
    o: u32,
    t2: Seq<FrameModel>,
    r2: RuntimeModel,
    res: Unwound,
) -> bool
    decreases t.len(),
{
    let unchanged = t2 == t && r2 == r;
    if t.len() == 0 {
        res is Uncaught && unchanged
    } else if !has_method_code(r, current(t)) {
        res is Malformed && unchanged
    } else {
        let f = current(t);
        match search(frame_method(r, f).code->Some_0.ex_table, f.pc, r, f.class as int, class_of(r, o)) {
            Search::Found(pc) => {
                &&& res is Caught
                &&& t2 == with_top(t, FrameModel { pc: pc as int, stack: f.stack.push(Value::Reference(Reference(o))), ..f })
                &&& r2 == r
            },
            Search::NeedClass(name) => res matches Unwound::Need(Need::Class(n)) && n@ == name && unchanged,
            Search::Bad => res is Malformed && unchanged,
            Search::NotFound => if can_return(t, r, me) {
                unwound(t.drop_last(), me, after_return(t, r, me), o, t2, r2, res)
            } else {
                res is Malformed && unchanged
            },
        }
    }
}

/// The handler of `handlers` that takes a throwable of the class at `thrown`, in a frame at
/// `pc` of a method of the class at `class`.
fn find_handler(handlers: &Vec<ExHandler>, pc: usize, runtime: &Runtime, class: usize, thrown: usize) -> (res: Result<Option<u16>, Option<String>>)
    requires
        runtime_wf(runtime@),
        class < runtime@.area.classes.len(),
        thrown < runtime@.area.classes.len(),
    ensures
        match search(handlers@, pc as int, runtime@, class as int, thrown as int) {
            Search::Found(h) => res == Ok::<Option<u16>, Option<String>>(Some(h)),
            Search::NotFound => res == Ok::<Option<u16>, Option<String>>(None),
            Search::NeedClass(name) => res matches Err(Some(n)) && n@ == name,
            Search::Bad => res matches Err(None),
        },
{
    let ghost r = runtime@;
    let ghost all = handlers@;
    let area = runtime.method_area();
    let pool = &area.class(class).const_pool;
    let mut i: usize = 0;
    proof {
        assert(all.subrange(0, all.len() as int) =~= all);
    }
    while i < handlers.len()
        invariant
            r == runtime@,
            all == handlers@,
            i <= all.len(),
            runtime_wf(r),
            class < r.area.classes.len(),
            thrown < r.area.classes.len(),
            area@ == r.area,
            pool@ == r.area.classes[class as int].const_pool,
            search(all, pc as int, r, class as int, thrown as int) == search(
                all.subrange(i as int, all.len() as int),
                pc as int,
                r,
                class as int,
                thrown as int,
            ),
        decreases all.len() - i,
    {
        proof {
            let rest = all.subrange(i as int, all.len() as int);
            assert(rest.drop_first() =~= all.subrange(i + 1, all.len() as int));
            assert(rest[0] == all[i as int]);
        }
        let h = &handlers[i];
        if (h.start_pc as usize) < pc && pc <= h.end_pc as usize {
            if h.catch_type == 0 {
                return Ok(Some(h.handler_pc));
            }
            let name = match pool.pool.get(&h.catch_type) {
                Some(Const::Class(c)) => &c.const_key.name,
                _ => return Err(None),
            };
            proof {
                crate::method_area::lemma_find_name_bounds(r.area.classes, name@);
            }
            match area.find_class(name) {
                None => return Err(Some(name.clone())),
                Some(c) => {
                    if area.is_instance_of(thrown, c) {
                        return Ok(Some(h.handler_pc));
                    }
                },
            }
        }
        i += 1;
    }
    Ok(None)
}

/// Unwind the frames of `thread` for the throwable `throwable` refers to, an object of a
/// loaded class, until a frame takes it: see [`unwound`].
pub fn unwind(thread: &mut Thread, runtime: &mut Runtime, throwable: Reference) -> (res: Unwound)
    requires
        runtime_wf(old(runtime)@),
        is_object(old(runtime)@.heap, throwable.0),
        class_of(old(runtime)@, throwable.0) < old(runtime)@.area.classes.len(),
    ensures
        runtime_wf(final(runtime)@),
        final(thread).spec_reference() == old(thread).spec_reference(),
        unwound(old(thread)@, old(thread).spec_reference(), old(runtime)@, throwable.0, final(thread)@, final(runtime)@, res),
    decreases old(thread)@.len(),
{
    let ghost t = thread@;
    let ghost r = runtime@;
    if thread.depth() == 0 {
        return Unwound::Uncaught;
    }
    let frame = thread.frame(thread.depth() - 1);
    let area = runtime.method_area();
    if frame.class >= area.len() {
        return Unwound::Malformed;
    }
    let class = area.class(frame.class);
    if frame.method >= class.methods.len() {
        return Unwound::Malformed;
    }
    let method = &class.methods[frame.method];
    assert(method@ == frame_method(r, current(t)));
    let code = match &method.code {
        Some(c) => c,
        None => return Unwound::Malformed,
    };
    let thrown = runtime.heap().get_object(throwable).class();
    match find_handler(&code.ex_table, frame.pc, runtime, frame.class, thrown) {
        Ok(Some(pc)) => {
            let mut top = thread.pop_frame();
            top.pc = pc as usize;
            top.operand_stack.push(Value::Reference(throwable));
            thread.push_frame(top);
            Unwound::Caught
        },
        Err(Some(name)) => Unwound::Need(Need::Class(name)),
        Err(None) => Unwound::Malformed,
        Ok(None) => {
            if !crate::instruction::dispatch::return_check(thread, runtime, false) {
                return Unwound::Malformed;
            }
            crate::instruction::exit::return_void(thread, runtime);
            unwind(thread, runtime, throwable)
        },
    }
}

/// The frame in which a thread with no frames left runs `stackTraceAndExit()V` of the class of
/// the throwable `o`, as the class or its nearest super class that has it declares it: at the
/// start of its code, the reference in its first local variable.
pub open spec fn uncaught_frame(r: RuntimeModel, o: u32) -> Option<FrameModel> {
    match method_lookup(r.area.classes, class_of(r, o), "stackTraceAndExit"@, void_method()) {
        Some((c, m)) => {
            let method = r.area.classes[c].methods[m];
            match method.code {
                Some(code) => if code.max_locals >= 1 {
                    Some(FrameModel {
                        pc: 0,
                        code: code.code,
                        stack: Seq::empty(),
                        locals: Seq::new(
                            code.max_locals as nat,
                            |i: int| if i == 0 { Value::Reference(Reference(o)) } else { Value::Int(Int(0)) },
                        ),
                        class: c as usize,
                        method: m as usize,
                    })
                } else {
                    None
                },
                None => None,
            }
        },
        None => None,
    }
}

/// Push the frame in which the thread runs `stackTraceAndExit()V` of the throwable's class; false,
/// changing nothing, when that class has no such method with code and a local variable.
pub fn throw_uncaught(thread: &mut Thread, runtime: &Runtime, throwable: Reference) -> (pushed: bool)
    requires
        runtime_wf(runtime@),
        is_object(runtime@.heap, throwable.0),
        class_of(runtime@, throwable.0) < runtime@.area.classes.len(),
    ensures
        final(thread).spec_reference() == old(thread).spec_reference(),
        match uncaught_frame(runtime@, throwable.0) {
            Some(f) => pushed && final(thread)@ == old(thread)@.push(f),
            None => !pushed && final(thread)@ == old(thread)@,
        },
{
    let thrown = runtime.heap().get_object(throwable).class();
    let name = String::from_str("stackTraceAndExit");
    let descriptor = crate::java::MethodType { parameters: Vec::new(), return_type: None };
    proof {
        reveal_strlit("stackTraceAndExit");
        assert(descriptor@.parameters =~= void_method().parameters);
    }
    let (c, m) = match runtime.method_area().find_method(thrown, &name, &descriptor) {
        Some(k) => k,
        None => return false,
    };
    let method = &runtime.method_area().class(c).methods[m];
    assert(method@ == runtime@.area.classes[c as int].methods[m as int]);
    let code = match &method.code {
        Some(code) => code,
        None => return false,
    };
    if code.max_locals < 1 {
        return false;
    }
    let bytes = crate::binary::copy_bytes(code.code.as_slice(), 0, code.code.len());
    let mut frame = Frame::new(bytes, code.max_locals, c, m);
    frame.local_vars.store_value(0, Value::Reference(throwable));
    proof {
        let expected = uncaught_frame(runtime@, throwable.0)->Some_0;
        assert(frame.local_vars@ =~= expected.locals);
        assert(code.code@ =~= code.code@.subrange(0, code.code@.len() as int));
    }
    thread.push_frame(frame);
    true
}

/// Whether the handler `h` takes a throwable of the class at `thrown` in a frame of a method
/// of the class at `class`: it catches everything, or the class its pool entry names is
/// loaded and the throwable's class is that class or a subclass of it.
pub open spec fn takes(h: ExHandler, r: RuntimeModel, class: int, thrown: int) -> bool {
    let pool = r.area.classes[class].const_pool;
    ||| h.catch_type == 0
    ||| {
        &&& pool.contains_key(h.catch_type)
        &&& pool[h.catch_type] is Class
        &&& find_name(r.area.classes, pool[h.catch_type]->Class_0) matches Some(c)
        &&& instance_of_spec(r.area.classes, thrown, c)
    }
}

/// The first handler whose range holds the program counter and that takes the throwable is
/// the one the throwable goes to: when the handler at `k` has `start_pc < pc <= end_pc` and
/// takes it, and no handler before it has the program counter in its range, the search finds
/// the entry point `handler_pc` of the handler at `k`.
pub proof fn law_first_handler_takes(
    handlers: Seq<ExHandler>,
    pc: int,
    r: RuntimeModel,
    class: int,
    thrown: int,
    k: int,
)
    requires
        0 <= k < handlers.len(),
        forall|j: int| 0 <= j < k ==> !(#[trigger] handlers[j].start_pc < pc && pc <= handlers[j].end_pc),
        handlers[k].start_pc < pc && pc <= handlers[k].end_pc,
        takes(handlers[k], r, class, thrown),
    ensures
        search(handlers, pc, r, class, thrown) == Search::Found(handlers[k].handler_pc),
    decreases k,
{
    if k > 0 {
        let rest = handlers.drop_first();
        assert forall|j: int| 0 <= j < k - 1 implies !(#[trigger] rest[j].start_pc < pc && pc <= rest[j].end_pc) by {
            assert(rest[j] == handlers[j + 1]);
        }
        assert(rest[k - 1] == handlers[k]);
        law_first_handler_takes(rest, pc, r, class, thrown, k - 1);
        assert(!(handlers[0].start_pc < pc && pc <= handlers[0].end_pc));
    }
}

/// A throwable passes a frame whose handlers all leave its program counter out of their
/// ranges: the search finds nothing.
pub proof fn law_no_handler_in_range(handlers: Seq<ExHandler>, pc: int, r: RuntimeModel, class: int, thrown: int)
    requires
        forall|j: int| 0 <= j < handlers.len() ==> !(#[trigger] handlers[j].start_pc < pc && pc <= handlers[j].end_pc),
    ensures
        search(handlers, pc, r, class, thrown) == Search::NotFound,
    decreases handlers.len(),
{
    if handlers.len() > 0 {
        let rest = handlers.drop_first();
        assert forall|j: int| 0 <= j < rest.len() implies !(#[trigger] rest[j].start_pc < pc && pc <= rest[j].end_pc) by {
            assert(rest[j] == handlers[j + 1]);
        }
        law_no_handler_in_range(rest, pc, r, class, thrown);
        assert(!(handlers[0].start_pc < pc && pc <= handlers[0].end_pc));
    }
}

} // verus!
