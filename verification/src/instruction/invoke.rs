//! Invoking methods: `invokespecial` calls the method a constant pool entry names, and
//! `invokevirtual` the method of that name and type that the class of the object it is called
//! on has.
//!
//! The method's class must be loaded and initialized; when it is not, the instruction does
//! nothing and reports it. The arguments, the object first, are taken off the operand stack,
//! one slot each. A method with code runs in a new frame whose first local variables hold the
//! arguments; a native method is handed back to the caller, who runs it and pushes what it
//! returns with [`complete_native`].

use vstd::prelude::*;

use crate::binary::copy_bytes;
use crate::heap::{HeapedModel, is_object};
use crate::instruction::{code_u16, current, has_code, has_operands, has_pool_entry, operand, pool_entry};
use crate::java::{MethodType, Reference, Value};
use crate::method_area::const_pool::RuntimeConst;
use crate::method_area::{
    MethodInfo,
    find_name,
    first_uninitialized,
    lemma_find_name_bounds,
    lemma_method_lookup_bound,
    method_lookup,
};
use crate::runtime::{Need, Runtime, RuntimeModel, runtime_wf};
use crate::thread::{Frame, FrameModel, OperandStack, Thread, with_top};

verus! {

/// A native method to run: the class that declares it, its index there, and its arguments.
pub struct NativeCall {
    pub class: usize,
    pub method: usize,
    pub args: Vec<Value>,
}

/// Whether the current frame has a two-byte index after its opcode that names a method in
/// its class's constant pool.
pub open spec fn indexes_method(t: Seq<FrameModel>, r: RuntimeModel) -> bool {
    &&& has_code(t, 2)
    &&& has_pool_entry(r, current(t), code_u16(current(t)))
    &&& pool_entry(r, current(t), code_u16(current(t))) is Method
}

/// The method reference named by the index after the current opcode.
pub open spec fn method_ref(t: Seq<FrameModel>, r: RuntimeModel) -> RuntimeConst {
    pool_entry(r, current(t), code_u16(current(t)))
}

/// The class a method reference names, if it was loaded and all the classes from the root of
/// its hierarchy down to it were initialized.
pub open spec fn ready_method_class(t: Seq<FrameModel>, r: RuntimeModel) -> Option<int> {
    match find_name(r.area.classes, method_ref(t, r)->Method_0) {
        Some(c) => if first_uninitialized(r.area, c) is None {
            Some(c)
        } else {
            None
        },
        None => None,
    }
}

/// What resolving the method's class reports when it is not ready: the class to load, or the
/// class to initialize.
pub open spec fn reports_method_need<T>(t: Seq<FrameModel>, r: RuntimeModel, res: Result<T, Need>) -> bool {
    match find_name(r.area.classes, method_ref(t, r)->Method_0) {
        None => res matches Err(Need::Class(name)) && name@ == method_ref(t, r)->Method_0,
        Some(c) => match first_uninitialized(r.area, c) {
            Some(k) => res matches Err(Need::Initialization(i)) && i == k,
            None => false,
        },
    }
}

/// The number of arguments of the method a method reference names, the object included.
pub open spec fn arg_count(t: Seq<FrameModel>, r: RuntimeModel) -> int {
    method_ref(t, r)->Method_2.parameters.len() + 1int
}

/// The `n` operands on top of the current frame's stack, the deepest first.
pub open spec fn args_of(t: Seq<FrameModel>, n: int) -> Seq<Value> {
    let s = current(t).stack;
    s.subrange(s.len() - n, s.len() as int)
}

/// Whether the `n` operands on top are each of the first category.
pub open spec fn args_in_slots(t: Seq<FrameModel>, n: int) -> bool {
    &&& has_operands(t, n)
    &&& forall|d: int| 0 <= d < n ==> (#[trigger] operand(t, d)).spec_category() == 1
}

/// The current frame after an invocation: past the index, without its `n` arguments.
pub open spec fn caller_after(t: Seq<FrameModel>, n: int) -> FrameModel {
    let f = current(t);
    FrameModel { pc: f.pc + 2, stack: f.stack.subrange(0, f.stack.len() - n), ..f }
}

/// The method at index `m` of the class at `c`.
pub open spec fn method_at(r: RuntimeModel, c: int, m: int) -> MethodInfo {
    r.area.classes[c].methods[m]
}

/// Whether the method at index `m` of the class at `c` can be called with `n` arguments: it is
/// native, or it has code with at least that many local variables.
pub open spec fn callable(r: RuntimeModel, c: int, m: int, n: int) -> bool {
    method_at(r, c, m).is_native || (method_at(r, c, m).code matches Some(code) && n <= code.max_locals)
}

/// The frame of a call of the method at index `m` of the class at `c` with `args`: at the
/// start of the method's code, its first local variables holding the arguments, the others 0.
pub open spec fn invoked_frame(r: RuntimeModel, c: int, m: int, args: Seq<Value>) -> FrameModel {
    let code = method_at(r, c, m).code->Some_0;
    FrameModel {
        pc: 0,
        code: code.code,
        stack: Seq::empty(),
        locals: Seq::new(
            code.max_locals as nat,
            |i: int| if i < args.len() { args[i] } else { Value::Int(crate::java::Int(0)) },
        ),
        class: c as usize,
        method: m as usize,
    }
}

/// The frames and result after invoking the method at index `m` of the class at `c` with the
/// arguments on top of the current frame.
pub open spec fn invoked(
    t: Seq<FrameModel>,
    r: RuntimeModel,
    c: int,
    m: int,
    n: int,
    t2: Seq<FrameModel>,
    res: Result<Option<NativeCall>, Need>,
) -> bool {
    let caller = with_top(t, caller_after(t, n));
    if method_at(r, c, m).is_native {
        &&& res matches Ok(Some(call)) && call.class == c && call.method == m && call.args@ == args_of(t, n)
        &&& t2 == caller
    } else {
        &&& res matches Ok(None)
        &&& t2 == caller.push(invoked_frame(r, c, m, args_of(t, n)))
    }
}

/// Look up the class of the method named by the index after the current opcode, and the
/// method's name and type, without reading the index.
pub(crate) fn resolve_method(thread: &Thread, runtime: &Runtime) -> (res: Result<(usize, String, MethodType), Need>)
    requires
        indexes_method(thread@, runtime@),
        runtime_wf(runtime@),
    ensures
        match ready_method_class(thread@, runtime@) {
            Some(c) => res matches Ok((k, name, descriptor)) && k == c && c < runtime@.area.classes.len()
                && name@ == method_ref(thread@, runtime@)->Method_1 && descriptor@ == method_ref(thread@, runtime@)->Method_2,
            None => res matches Err(need) && reports_method_need(thread@, runtime@, Err::<(), Need>(need)),
        },
{
    let frame = thread.frame(thread.depth() - 1);
    let index = frame.peek_u16();
    let area = runtime.method_area();
    let pool = &area.class(frame.class).const_pool;
    let reference = pool.get_method(index);
    proof {
        lemma_find_name_bounds(runtime@.area.classes, method_ref(thread@, runtime@)->Method_0);
    }
    let class = match area.find_class(&reference.const_key.class) {
        Some(c) => c,
        None => return Err(Need::Class(reference.const_key.class.clone())),
    };
    match area.next_to_initialize(class) {
        Some(k) => return Err(Need::Initialization(k)),
        None => {},
    }
    Ok((class, reference.const_key.name.clone(), reference.const_key.descriptor.duplicate()))
}

/// Take the `n` values on top of `stack` off it, the deepest first.
fn pop_args(stack: &mut OperandStack, n: usize) -> (args: Vec<Value>)
    requires
        n <= old(stack)@.len(),
        forall|i: int| old(stack)@.len() - n <= i < old(stack)@.len() ==> (#[trigger] old(stack)@[i]).spec_category() == 1,
    ensures
        args@ == old(stack)@.subrange(old(stack)@.len() - n, old(stack)@.len() as int),
        final(stack)@ == old(stack)@.subrange(0, old(stack)@.len() - n),
{
    let ghost s = stack@;
    let mut popped: Vec<Value> = Vec::new();
    let mut i: usize = 0;
    while i < n
        invariant
            i <= n <= s.len(),
            forall|k: int| s.len() - n <= k < s.len() ==> (#[trigger] s[k]).spec_category() == 1,
            stack@ == s.subrange(0, s.len() - i),
            popped@.len() == i,
            forall|k: int| 0 <= k < i ==> popped@[k] == s[s.len() - 1 - k],
        decreases n - i,
    {
        let v = stack.pop_cat_one();
        popped.push(v);
        i += 1;
    }
    let mut args: Vec<Value> = Vec::new();
    let mut j: usize = 0;
    while j < n
        invariant
            j <= n <= s.len(),
            popped@.len() == n,
            forall|k: int| 0 <= k < n ==> popped@[k] == s[s.len() - 1 - k],
            args@ == s.subrange(s.len() - n, s.len() - n + j),
        decreases n - j,
    {
        args.push(popped[n - 1 - j]);
        proof {
            assert(args@ =~= s.subrange(s.len() - n, s.len() - n + j + 1));
        }
        j += 1;
    }
    args
}

/// Call the method at index `m` of the class at `c` with the arguments on top of the current
/// frame: hand a native method back, or push a frame for one with code.
fn call(thread: &mut Thread, runtime: &Runtime, c: usize, m: usize, n: usize) -> (res: Result<Option<NativeCall>, Need>)
    requires
        runtime_wf(runtime@),
        c < runtime@.area.classes.len(),
        m < runtime@.area.classes[c as int].methods.len(),
        has_code(old(thread)@, 2),
        args_in_slots(old(thread)@, n as int),
        callable(runtime@, c as int, m as int, n as int),
    ensures
        final(thread).spec_reference() == old(thread).spec_reference(),
        invoked(old(thread)@, runtime@, c as int, m as int, n as int, final(thread)@, res),
{
    let ghost t = thread@;
    let mut frame = thread.pop_frame();
    let _index = frame.read_u16();
    proof {
        assert forall|i: int| frame.operand_stack@.len() - n <= i < frame.operand_stack@.len() implies (#[trigger] frame.operand_stack@[i]).spec_category() == 1 by {
            assert(frame.operand_stack@[i] == operand(t, frame.operand_stack@.len() - 1 - i));
        }
    }
    let args = pop_args(&mut frame.operand_stack, n);
    thread.push_frame(frame);
    let method = &runtime.method_area().class(c).methods[m];
    assert(method@ == method_at(runtime@, c as int, m as int));
    if method.is_native {
        return Ok(Some(NativeCall { class: c, method: m, args }));
    }
    let code = match &method.code {
        Some(code) => code,
        None => unreached(),
    };
    let bytes = copy_bytes(code.code.as_slice(), 0, code.code.len());
    let mut callee = Frame::new(bytes, code.max_locals, c, m);
    let mut i: usize = 0;
    while i < args.len()
        invariant
            i <= args@.len() <= code.max_locals,
            callee.local_vars@.len() == code.max_locals,
            forall|k: int| 0 <= k < code.max_locals ==> #[trigger] callee.local_vars@[k] == (if k < i { args@[k] } else { Value::Int(crate::java::Int(0)) }),
            callee@ == (FrameModel { locals: callee.local_vars@, ..callee@ }),
            callee.pc == 0,
            callee.code@ == code.code@,
            callee.operand_stack@ == Seq::<Value>::empty(),
            callee.class == c,
            callee.method == m,
        decreases args.len() - i,
    {
        callee.local_vars.store_value(i as u16, args[i]);
        i += 1;
    }
    proof {
        let expected = invoked_frame(runtime@, c as int, m as int, args@);
        assert(callee.local_vars@ =~= expected.locals);
        assert(code.code@ =~= code.code@.subrange(0, code.code@.len() as int));
    }
    thread.push_frame(callee);
    Ok(None)
}

/// Whether `invokespecial` can call its method once the class is ready: the class has it, its
/// arguments are on top, each in one slot, and it can be called with them.
pub open spec fn special_callable(t: Seq<FrameModel>, r: RuntimeModel) -> bool {
    ready_method_class(t, r) matches Some(c) ==> {
        let target = method_lookup(r.area.classes, c, method_ref(t, r)->Method_1, method_ref(t, r)->Method_2);
        &&& target is Some
        &&& args_in_slots(t, arg_count(t, r))
        &&& callable(r, target->Some_0.0, target->Some_0.1, arg_count(t, r))
    }
}

/// What `invokespecial` comes to on the frames `t` and the runtime `r`: the frames `t2`
/// after it, and its result `res`.
pub open spec fn special_invoked(t: Seq<FrameModel>, r: RuntimeModel, t2: Seq<FrameModel>, res: Result<Option<NativeCall>, Need>) -> bool {
    match ready_method_class(t, r) {
        None => reports_method_need(t, r, res) && t2 == t,
        Some(c) => {
            let target = method_lookup(r.area.classes, c, method_ref(t, r)->Method_1, method_ref(t, r)->Method_2)->Some_0;
            invoked(t, r, target.0, target.1, arg_count(t, r), t2, res)
        },
    }
}

/// `invokespecial`: call the method the index after the opcode names, as its class has it.
pub fn invoke_special(thread: &mut Thread, runtime: &Runtime) -> (res: Result<Option<NativeCall>, Need>)
    requires
        indexes_method(old(thread)@, runtime@),
        runtime_wf(runtime@),
        special_callable(old(thread)@, runtime@),
    ensures
        final(thread).spec_reference() == old(thread).spec_reference(),
        special_invoked(old(thread)@, runtime@, final(thread)@, res),
{
    let (class, name, descriptor) = match resolve_method(thread, runtime) {
        Ok(k) => k,
        Err(need) => return Err(need),
    };
    proof {
        lemma_method_lookup_bound(runtime@.area.classes, class as int, name@, descriptor@);
    }
    let (c, m) = match runtime.method_area().find_method(class, &name, &descriptor) {
        Some(k) => k,
        None => unreached(),
    };
    let stack_len = thread.frame(thread.depth() - 1).operand_stack.len();
    assert(descriptor.parameters@.len() + 1 <= stack_len);
    let n = descriptor.parameters.len() + 1;
    call(thread, runtime, c, m, n)
}

/// The class of the object the first argument refers to.
pub open spec fn receiver_class(t: Seq<FrameModel>, r: RuntimeModel, n: int) -> int {
    r.heap[args_of(t, n)[0]->Reference_0.0]->Object_0.class as int
}

/// Whether `invokevirtual` can call its method once the class is ready: the first argument
/// refers to an object of a loaded class, that class has a method of the name and type, and it
/// can be called with the arguments on top, each in one slot.
pub open spec fn virtual_callable(t: Seq<FrameModel>, r: RuntimeModel) -> bool {
    ready_method_class(t, r) is Some ==> {
        let n = arg_count(t, r);
        let target = method_lookup(r.area.classes, receiver_class(t, r, n), method_ref(t, r)->Method_1, method_ref(t, r)->Method_2);
        &&& args_in_slots(t, n)
        &&& args_of(t, n)[0] is Reference
        &&& is_object(r.heap, args_of(t, n)[0]->Reference_0.0)
        &&& receiver_class(t, r, n) < r.area.classes.len()
        &&& target is Some
        &&& callable(r, target->Some_0.0, target->Some_0.1, n)
    }
}

/// What `invokevirtual` comes to on the frames `t` and the runtime `r`: the frames `t2`
/// after it, and its result `res`.
pub open spec fn virtual_invoked(t: Seq<FrameModel>, r: RuntimeModel, t2: Seq<FrameModel>, res: Result<Option<NativeCall>, Need>) -> bool {
    match ready_method_class(t, r) {
        None => reports_method_need(t, r, res) && t2 == t,
        Some(_) => {
            let n = arg_count(t, r);
            let target = method_lookup(
                r.area.classes,
                receiver_class(t, r, n),
                method_ref(t, r)->Method_1,
                method_ref(t, r)->Method_2,
            )->Some_0;
            invoked(t, r, target.0, target.1, n, t2, res)
        },
    }
}

/// `invokevirtual`: call the method of the name and type the index after the opcode names
/// that the class of the object it is called on has.
pub fn invoke_virtual(thread: &mut Thread, runtime: &Runtime) -> (res: Result<Option<NativeCall>, Need>)
    requires
        indexes_method(old(thread)@, runtime@),
        runtime_wf(runtime@),
        virtual_callable(old(thread)@, runtime@),
    ensures
        final(thread).spec_reference() == old(thread).spec_reference(),
        virtual_invoked(old(thread)@, runtime@, final(thread)@, res),
{
    let (_class, name, descriptor) = match resolve_method(thread, runtime) {
        Ok(k) => k,
        Err(need) => return Err(need),
    };
    let stack_len = thread.frame(thread.depth() - 1).operand_stack.len();
    assert(descriptor.parameters@.len() + 1 <= stack_len);
    let n = descriptor.parameters.len() + 1;
    let ghost t = thread@;
    let frame = thread.frame(thread.depth() - 1);
    let receiver = frame.operand_stack.peek(n - 1).as_reference();
    proof {
        assert(receiver.0 == args_of(t, n as int)[0]->Reference_0.0);
    }
    let object_class = runtime.heap().get_object(receiver).class();
    proof {
        lemma_method_lookup_bound(runtime@.area.classes, object_class as int, name@, descriptor@);
    }
    let (c, m) = match runtime.method_area().find_method(object_class, &name, &descriptor) {
        Some(k) => k,
        None => unreached(),
    };
    call(thread, runtime, c, m, n)
}

/// Push what a native method returned, if anything, on the current frame's operand stack.
pub fn complete_native(thread: &mut Thread, result: Option<Value>)
    requires
        old(thread)@.len() > 0,
    ensures
        final(thread).spec_reference() == old(thread).spec_reference(),
        final(thread)@ == match result {
            Some(v) => with_top(old(thread)@, FrameModel { stack: current(old(thread)@).stack.push(v), ..current(old(thread)@) }),
            None => old(thread)@,
        },
{
    match result {
        Some(v) => {
            let mut frame = thread.pop_frame();
            frame.operand_stack.push(v);
            thread.push_frame(frame);
        },
        None => {},
    }
}

} // verus!
