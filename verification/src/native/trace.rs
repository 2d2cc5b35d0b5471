//! `Throwable.fillInStackTrace`: the stack trace of a thread as a list of elements, and the
//! class whose one method builds the `java.lang.StackTraceElement` array of that trace.
//!
//! The elements are taken from the bottom of the thread's stack. The method of the generated
//! class makes the array, then one element per entry by calling the element's constructor
//! with the class name, method name, file name and line of the entry, and stores them in the
//! array from the last made to the first.

use std::collections::HashMap;

use vstd::prelude::*;

use crate::class_file::{Code, CodeAttributeModel, CodeModel, LineNumber, first_line_number_table};
use crate::java::{FieldType, MethodType};
use crate::java::field_type::TypeModel;
use crate::java::method_type::MethodModel;
use crate::method_area::{Class, ClassFlags, ClassModel, Method, MethodArea, MethodInfo, area_wf, instance_of_spec};
use crate::method_area::const_pool::{ClassKey, Const, ConstPool, MethodKey, RuntimeConst, SymbolicReference};
use crate::heap::is_object;
use crate::java::{Reference, Value};
use crate::method_area::{MethodAreaModel, field_slot, find_name};
use crate::runtime::{Need, Runtime, RuntimeModel, has_runtime_fields, runtime_wf};
use crate::heap::HeapedModel;
use crate::heap::allocator::ObjectModel;
use crate::thread::{FrameModel, Thread};

verus! {

broadcast use vstd::std_specs::hash::group_hash_axioms;

/// An entry of a stack trace: the class and method of a frame, the source file of the class,
/// and the line the frame is at (-2 when the method has no line numbers).
pub struct StackElemModel {
    pub class: Seq<char>,
    pub method: Seq<char>,
    pub file: Option<Seq<char>>,
    pub line: i32,
}

/// An entry of a stack trace.
pub struct StackElem {
    pub class: String,
    pub method: String,
    pub file: Option<String>,
    pub line: i32,
}

impl View for StackElem {
    type V = StackElemModel;

    open spec fn view(&self) -> StackElemModel {
        StackElemModel {
            class: self.class@,
            method: self.method@,
            file: match self.file {
                Some(f) => Some(f@),
                None => None,
            },
            line: self.line,
        }
    }
}

/// The line of the last entry of `table` that starts at or before `pc`, if any.
pub open spec fn last_line(table: Seq<LineNumber>, pc: int) -> Option<u16>
    decreases table.len(),
{
    if table.len() == 0 {
        None
    } else if table.last().start_pc <= pc {
        Some(table.last().line_number)
    } else {
        last_line(table.drop_last(), pc)
    }
}

/// The line of code at `pc`: from the code's first line number table, or -2 when the method
/// has no code or no table; `None` when the table has no entry at or before `pc`.
pub open spec fn line_at(code: Option<CodeModel>, pc: int) -> Option<i32> {
    match code {
        None => Some(-2i32),
        Some(c) => match first_line_number_table(c.attributes) {
            None => Some(-2i32),
            Some(i) => match c.attributes[i] {
                CodeAttributeModel::LineNumberTable(table) => match last_line(table, pc) {
                    Some(l) => Some(l as i32),
                    None => None,
                },
                CodeAttributeModel::Unknown(..) => Some(-2i32),
            },
        },
    }
}

/// Whether the frames of `t` name classes of `classes` and methods of those classes.
pub open spec fn frames_in(t: Seq<FrameModel>, classes: Seq<ClassModel>) -> bool {
    forall|i: int|
        0 <= i < t.len() ==> {
            &&& (#[trigger] t[i]).class < classes.len()
            &&& t[i].method < classes[t[i].class as int].methods.len()
        }
}

/// Whether the frame `f` goes into a stack trace: its class is not a throwable, and it runs
/// a constructor.
pub open spec fn traced_frame(f: FrameModel, classes: Seq<ClassModel>, throwable: int) -> bool {
    &&& !instance_of_spec(classes, f.class as int, throwable)
    &&& classes[f.class as int].methods[f.method as int].name == "<init>"@
}

/// The number of frames, from the bottom of `t` up, that go into a stack trace: those before
/// the first that does not.
pub open spec fn traced_count(t: Seq<FrameModel>, classes: Seq<ClassModel>, throwable: int, from: int) -> int
    decreases t.len() - from,
{
    if from < 0 || from >= t.len() || !traced_frame(t[from], classes, throwable) {
        from
    } else {
        traced_count(t, classes, throwable, from + 1)
    }
}

/// The entry of a stack trace for the frame `f`, with the line `line`.
pub open spec fn elem_of(f: FrameModel, classes: Seq<ClassModel>, line: i32) -> StackElemModel {
    let class = classes[f.class as int];
    StackElemModel {
        class: class.name,
        method: class.methods[f.method as int].name,
        file: class.source_file,
        line,
    }
}

/// Whether the line of each of the first `n` frames of `t` is known.
pub open spec fn lines_known(t: Seq<FrameModel>, classes: Seq<ClassModel>, n: int) -> bool {
    forall|i: int| 0 <= i < n ==> line_at(#[trigger] frame_code(t[i], classes), t[i].pc) is Some
}

/// The code of the method the frame `f` runs.
pub open spec fn frame_code(f: FrameModel, classes: Seq<ClassModel>) -> Option<CodeModel> {
    classes[f.class as int].methods[f.method as int].code
}

/// The stack trace of the frames `t`: an entry for each of the frames that go into it.
pub open spec fn stack_trace(t: Seq<FrameModel>, classes: Seq<ClassModel>, throwable: int) -> Seq<StackElemModel> {
    Seq::new(
        traced_count(t, classes, throwable, 0) as nat,
        |i: int| elem_of(t[i], classes, line_at(frame_code(t[i], classes), t[i].pc)->Some_0),
    )
}

/// `traced_count` counts on from `from` up to the first frame that is not traced.
proof fn lemma_traced_count(t: Seq<FrameModel>, classes: Seq<ClassModel>, throwable: int, from: int)
    requires
        0 <= from <= t.len(),
    ensures
        from <= traced_count(t, classes, throwable, from) <= t.len(),
        forall|i: int| from <= i < traced_count(t, classes, throwable, from) ==> traced_frame(#[trigger] t[i], classes, throwable),
        traced_count(t, classes, throwable, from) < t.len() ==> !traced_frame(
            t[traced_count(t, classes, throwable, from)],
            classes,
            throwable,
        ),
    decreases t.len() - from,
{
    if from < t.len() && traced_frame(t[from], classes, throwable) {
        lemma_traced_count(t, classes, throwable, from + 1);
    }
}

/// The line of the last entry of `table` that starts at or before `pc`.
fn find_line(table: &Vec<LineNumber>, pc: usize) -> (res: Option<u16>)
    ensures
        res == last_line(table@, pc as int),
{
    let mut i: usize = table.len();
    proof {
        assert(table@.subrange(0, table@.len() as int) =~= table@);
    }
    while i > 0
        invariant
            i <= table@.len(),
            last_line(table@, pc as int) == last_line(table@.subrange(0, i as int), pc as int),
        decreases i,
    {
        proof {
            let s = table@.subrange(0, i as int);
            assert(s.drop_last() =~= table@.subrange(0, i - 1));
        }
        if table[i - 1].start_pc as usize <= pc {
            return Some(table[i - 1].line_number);
        }
        i -= 1;
    }
    None
}

/// The line of code at `pc` of `code`.
fn code_line(code: &Option<crate::class_file::Code>, pc: usize) -> (res: Option<i32>)
    ensures
        res == line_at(
            match code {
                Some(c) => Some(c@),
                None => None,
            },
            pc as int,
        ),
{
    match code {
        None => Some(-2),
        Some(c) => match c.line_number_table() {
            None => Some(-2),
            Some(table) => match find_line(&table.table, pc) {
                Some(l) => Some(l as i32),
                None => None,
            },
        },
    }
}

/// The stack trace of `thread`, from the bottom of its stack up to the first frame that does
/// not run a constructor of a class other than a throwable, the class at `throwable`; `None`
/// when the line of one of those frames is not known, as its line number table has no entry
/// at or before where the frame is.
pub fn stack_elems(thread: &Thread, area: &MethodArea, throwable: usize) -> (res: Option<Vec<StackElem>>)
    requires
        area_wf(area@),
        throwable < area@.classes.len(),
        frames_in(thread@, area@.classes),
    ensures
        match res {
            Some(v) => lines_known(thread@, area@.classes, traced_count(thread@, area@.classes, throwable as int, 0))
                && v@.map_values(|e: StackElem| e@) == stack_trace(thread@, area@.classes, throwable as int),
            None => !lines_known(thread@, area@.classes, traced_count(thread@, area@.classes, throwable as int, 0)),
        },
{
    let ghost t = thread@;
    let ghost classes = area@.classes;
    let ghost n = traced_count(t, classes, throwable as int, 0);
    proof {
        lemma_traced_count(t, classes, throwable as int, 0);
    }
    let mut elems: Vec<StackElem> = Vec::new();
    let mut i: usize = 0;
    let init = String::from_str("<init>");
    proof {
        reveal_strlit("<init>");
    }
    let mut go = true;
    while go && i < thread.depth()
        invariant
            t == thread@,
            n == traced_count(t, classes, throwable as int, 0),
            !go ==> i < t.len() && !traced_frame(t[i as int], classes, throwable as int),
            classes == area@.classes,
            area_wf(area@),
            throwable < classes.len(),
            frames_in(t, classes),
            init@ == "<init>"@,
            0 <= n <= t.len(),
            forall|k: int| 0 <= k < n ==> traced_frame(#[trigger] t[k], classes, throwable as int),
            n < t.len() ==> !traced_frame(t[n], classes, throwable as int),
            i <= n,
            elems@.len() == i,
            lines_known(t, classes, i as int),
            forall|k: int| 0 <= k < i ==> (#[trigger] elems@[k])@ == stack_trace(t, classes, throwable as int)[k],
        decreases t.len() - i + (if go { 1int } else { 0int }),
    {
        let frame = thread.frame(i);
        assert(frame@ == t[i as int]);
        let class = area.class(frame.class);
        let method = &class.methods[frame.method];
        assert(method@ == classes[frame.class as int].methods[frame.method as int]);
        if area.is_instance_of(frame.class, throwable) || method.name != init {
            assert(!traced_frame(t[i as int], classes, throwable as int));
            go = false;
            continue;
        }
        assert(traced_frame(t[i as int], classes, throwable as int));
        assert(i < n);
        let line = match code_line(&method.code, frame.pc) {
            Some(l) => l,
            None => {
                assert(line_at(frame_code(t[i as int], classes), t[i as int].pc) is None);
                assert(!lines_known(t, classes, n));
                return None;
            },
        };
        let file = match &class.source_file {
            Some(f) => Some(f.clone()),
            None => None,
        };
        elems.push(StackElem { class: class.name.clone(), method: method.name.clone(), file, line });
        proof {
            assert(elems@[i as int]@ == stack_trace(t, classes, throwable as int)[i as int]);
        }
        i += 1;
    }
    assert(i == n);
    proof {
        assert(elems@.map_values(|e: StackElem| e@) =~= stack_trace(t, classes, throwable as int));
    }
    Some(elems)
}

/// The number of constant pool entries an element takes: its class and method names, its file
/// name when it has one, and its line.
pub open spec fn elem_slots(e: StackElemModel) -> int {
    if e.file is Some {
        4
    } else {
        3
    }
}

/// The index of the first constant pool entry of the element after `elems`.
pub open spec fn next_index(elems: Seq<StackElemModel>) -> int
    decreases elems.len(),
{
    if elems.len() == 0 {
        4
    } else {
        next_index(elems.drop_last()) + elem_slots(elems.last())
    }
}

/// `ldc_w` of the entry at `i`: push the constant there.
pub open spec fn ldc_w(i: int) -> Seq<u8> {
    seq![0x13u8, (i / 256) as u8, (i % 256) as u8]
}

/// The code that makes the element `e`, whose constants start at `idx`, and leaves it on the
/// stack: `new`, `dup`, push the class name, method name, file name (or null) and line, and
/// call the element's constructor.
pub open spec fn elem_code(e: StackElemModel, idx: int) -> Seq<u8> {
    seq![0xBBu8, 0, 1, 0x59] + ldc_w(idx) + ldc_w(idx + 1) + (match e.file {
        Some(_) => ldc_w(idx + 2),
        None => seq![0x01u8],
    }) + ldc_w(idx + elem_slots(e) - 1) + seq![0xB7u8, 0, 2]
}

/// The code that makes the elements `elems`, one after the other.
pub open spec fn elems_code(elems: Seq<StackElemModel>) -> Seq<u8>
    decreases elems.len(),
{
    if elems.len() == 0 {
        Seq::empty()
    } else {
        elems_code(elems.drop_last()) + elem_code(elems.last(), next_index(elems.drop_last()))
    }
}

/// `pool` with the constants of the element `e` from `idx` on: the class and method names, the
/// file name when there is one, and the line.
pub open spec fn with_elem(pool: Map<u16, RuntimeConst>, e: StackElemModel, idx: int) -> Map<u16, RuntimeConst> {
    let p = pool.insert(idx as u16, RuntimeConst::String(e.class)).insert((idx + 1) as u16, RuntimeConst::String(e.method));
    let q = match e.file {
        Some(f) => p.insert((idx + 2) as u16, RuntimeConst::String(f)),
        None => p,
    };
    q.insert((idx + elem_slots(e) - 1) as u16, RuntimeConst::Integer(e.line))
}

/// `pool` with the constants of the elements `elems`.
pub open spec fn with_elems(pool: Map<u16, RuntimeConst>, elems: Seq<StackElemModel>) -> Map<u16, RuntimeConst>
    decreases elems.len(),
{
    if elems.len() == 0 {
        pool
    } else {
        with_elem(with_elems(pool, elems.drop_last()), elems.last(), next_index(elems.drop_last()))
    }
}

/// The type of the constructor of `java.lang.StackTraceElement`: the class, method and file
/// names and the line.
pub open spec fn element_init_type() -> MethodModel {
    MethodModel {
        parameters: seq![
            TypeModel::Reference("java/lang/String"@),
            TypeModel::Reference("java/lang/String"@),
            TypeModel::Reference("java/lang/String"@),
            TypeModel::Int,
        ],
        return_type: None,
    }
}

/// The type of the generated method: no parameters, returns an array of stack trace
/// elements.
pub open spec fn trace_method_type() -> MethodModel {
    MethodModel {
        parameters: Seq::empty(),
        return_type: Some(TypeModel::Array(Box::new(TypeModel::Reference("java/lang/StackTraceElement"@)))),
    }
}

/// The constants every generated class has: the element class at 1, its constructor at 2 and
/// the number of elements at 3.
pub open spec fn base_pool(n: int) -> Map<u16, RuntimeConst> {
    Map::empty().insert(1u16, RuntimeConst::Class("java.lang.StackTraceElement"@)).insert(
        2u16,
        RuntimeConst::Method("java.lang.StackTraceElement"@, "<init>"@, element_init_type()),
    ).insert(3u16, RuntimeConst::Integer(n as i32))
}

/// The code that stores `n` elements from the stack into the array, the last made first:
/// `astore_2`, `aload_0`, `iload_1`, `aload_2`, `aastore`, `iinc 1 1`, each time.
pub open spec fn store_code(n: nat) -> Seq<u8>
    decreases n,
{
    if n == 0 {
        Seq::empty()
    } else {
        store_code((n - 1) as nat) + seq![0x4Du8, 0x2A, 0x1B, 0x2C, 0x53, 0x84, 1, 1]
    }
}

/// The code of the generated method: make the array (`ldc_w` of its length, `anewarray`,
/// `astore_0`), make the elements, store them, and return the array.
pub open spec fn trace_code(elems: Seq<StackElemModel>) -> Seq<u8> {
    seq![0x13u8, 0, 3, 0xBD, 0, 1, 0x4B] + elems_code(elems) + seq![0x03u8, 0x3C] + store_code(elems.len())
        + seq![0x2Au8, 0xB0]
}

/// The class named `name` whose one static method `<fill-in-stack-trace>` returns the stack
/// trace `elems` as an array of `java.lang.StackTraceElement`; the method has the three local
/// variables its code uses.
pub open spec fn trace_class(name: Seq<char>, elems: Seq<StackElemModel>) -> ClassModel {
    ClassModel {
        name,
        flags: 0,
        const_pool: with_elems(base_pool(elems.len() as int), elems),
        super_class: None,
        instance_fields: Seq::empty(),
        static_fields: Seq::empty(),
        methods: seq![
            MethodInfo {
                class: 0,
                is_static: true,
                is_native: false,
                is_synchronized: false,
                name: "<fill-in-stack-trace>"@,
                descriptor: trace_method_type(),
                code: Some(
                    CodeModel {
                        max_stack: 0,
                        max_locals: 3,
                        code: trace_code(elems),
                        ex_table: Seq::empty(),
                        attributes: Seq::empty(),
                    },
                ),
            },
        ],
        instance_width: 0,
        static_width: 0,
        source_file: None,
    }
}

/// The entry indices of a prefix of the elements stop no later than those of all of them.
proof fn lemma_next_index_prefix(elems: Seq<StackElemModel>, i: int)
    requires
        0 <= i <= elems.len(),
    ensures
        4 <= next_index(elems.take(i)) <= next_index(elems),
    decreases elems.len() - i,
{
    if i < elems.len() {
        lemma_next_index_prefix(elems, i + 1);
        assert(elems.take(i + 1).drop_last() =~= elems.take(i));
    } else {
        assert(elems.take(i) =~= elems);
    }
    lemma_next_index_min(elems.take(i));
}

/// The entries of the elements start at 4.
proof fn lemma_next_index_min(elems: Seq<StackElemModel>)
    ensures
        next_index(elems) >= 4,
    decreases elems.len(),
{
    if elems.len() > 0 {
        lemma_next_index_min(elems.drop_last());
    }
}

/// Push `op` and the two bytes of `i`, high first.
fn push_indexed(code: &mut Vec<u8>, op: u8, i: u16)
    ensures
        final(code)@ == old(code)@ + seq![op, (i / 256) as u8, (i % 256) as u8],
{
    code.push(op);
    code.push((i / 256) as u8);
    code.push((i % 256) as u8);
    proof {
        assert(final(code)@ =~= old(code)@ + seq![op, (i / 256) as u8, (i % 256) as u8]);
    }
}

/// The type of the constructor of `java.lang.StackTraceElement`.
fn element_init_method_type() -> (t: MethodType)
    ensures
        t@ == element_init_type(),
{
    let mut parameters: Vec<FieldType> = Vec::new();
    parameters.push(FieldType::Reference(String::from_str("java/lang/String")));
    parameters.push(FieldType::Reference(String::from_str("java/lang/String")));
    parameters.push(FieldType::Reference(String::from_str("java/lang/String")));
    parameters.push(FieldType::Int);
    let t = MethodType { parameters, return_type: None };
    proof {
        assert(t@.parameters =~= element_init_type().parameters);
    }
    t
}

/// The type of the generated method.
fn trace_method_type_value() -> (t: MethodType)
    ensures
        t@ == trace_method_type(),
{
    let element = FieldType::Reference(String::from_str("java/lang/StackTraceElement"));
    let t = MethodType { parameters: Vec::new(), return_type: Some(FieldType::Array(Box::new(element))) };
    proof {
        reveal_with_fuel(crate::java::field_type::model_of, 2);
        assert(t@.parameters =~= trace_method_type().parameters);
    }
    t
}

/// The models of `elems`.
pub open spec fn elem_models(elems: Seq<StackElem>) -> Seq<StackElemModel> {
    elems.map_values(|e: StackElem| e@)
}

/// The class named `name` whose one method builds the stack trace `elems`; the elements'
/// constants must fit in a constant pool.
pub fn make_trace_class(name: String, elems: &Vec<StackElem>) -> (class: Class)
    requires
        next_index(elem_models(elems@)) <= u16::MAX,
    ensures
        class@ == trace_class(name@, elem_models(elems@)),
{
    let ghost es = elem_models(elems@);
    let n = elems.len();
    proof {
        lemma_next_index_prefix(es, n as int);
        assert(es.take(n as int) =~= es);
    }
    let mut pool: HashMap<u16, Const> = HashMap::new();
    pool.insert(
        1,
        Const::Class(SymbolicReference::new(ClassKey { name: String::from_str("java.lang.StackTraceElement") })),
    );
    pool.insert(
        2,
        Const::Method(
            SymbolicReference::new(
                MethodKey {
                    class: String::from_str("java.lang.StackTraceElement"),
                    name: String::from_str("<init>"),
                    descriptor: element_init_method_type(),
                },
            ),
        ),
    );
    pool.insert(3, Const::Integer(n as i32));
    let ghost base = base_pool(n as int);
    proof {
        assert forall|k: u16| #[trigger] pool@.contains_key(k) <==> base.contains_key(k) by {}
        assert forall|k: u16| #[trigger] pool@.contains_key(k) implies pool@[k]@ == base[k] by {}
    }
    let mut code: Vec<u8> = Vec::new();
    push_indexed(&mut code, 0x13, 3);
    push_indexed(&mut code, 0xBD, 1);
    code.push(0x4B);
    let ghost head = seq![0x13u8, 0, 3, 0xBD, 0, 1, 0x4B];
    proof {
        assert(code@ =~= head);
    }
    let mut idx: u16 = 4;
    let mut i: usize = 0;
    while i < n
        invariant
            n == elems@.len(),
            es == elem_models(elems@),
            es.len() == n,
            next_index(es) <= u16::MAX,
            i <= n,
            idx == next_index(es.take(i as int)),
            code@ == head + elems_code(es.take(i as int)),
            forall|k: u16| #[trigger] pool@.contains_key(k) <==> with_elems(base, es.take(i as int)).contains_key(k),
            forall|k: u16| #[trigger] pool@.contains_key(k) ==> pool@[k]@ == with_elems(base, es.take(i as int))[k],
        decreases n - i,
    {
        let ghost before = es.take(i as int);
        let ghost now = es.take(i + 1);
        let ghost e = es[i as int];
        proof {
            assert(now.drop_last() =~= before);
            assert(now.last() == e);
            lemma_next_index_prefix(es, i + 1);
            assert(e == elems@[i as int]@);
        }
        let elem = &elems[i];
        code.push(0xBB);
        code.push(0);
        code.push(1);
        code.push(0x59);
        pool.insert(idx, Const::String(SymbolicReference::new(elem.class.clone())));
        push_indexed(&mut code, 0x13, idx);
        pool.insert(idx + 1, Const::String(SymbolicReference::new(elem.method.clone())));
        push_indexed(&mut code, 0x13, idx + 1);
        let mut next = idx + 2;
        match &elem.file {
            Some(file) => {
                pool.insert(next, Const::String(SymbolicReference::new(file.clone())));
                push_indexed(&mut code, 0x13, next);
                next = next + 1;
            },
            None => {
                code.push(0x01);
            },
        }
        pool.insert(next, Const::Integer(elem.line));
        push_indexed(&mut code, 0x13, next);
        code.push(0xB7);
        code.push(0);
        code.push(2);
        proof {
            let expected = with_elems(base, now);
            assert(expected == with_elem(with_elems(base, before), e, idx as int));
            assert forall|k: u16| #[trigger] pool@.contains_key(k) <==> expected.contains_key(k) by {}
            assert forall|k: u16| #[trigger] pool@.contains_key(k) implies pool@[k]@ == expected[k] by {}
            assert(elems_code(now) == elems_code(before) + elem_code(e, idx as int));
            assert(code@ =~= head + elems_code(now));
        }
        idx = next + 1;
        i += 1;
    }
    proof {
        assert(es.take(n as int) =~= es);
    }
    push_indexed(&mut code, 0x03, 0);
    let ghost made = head + elems_code(es);
    proof {
        assert(code@ =~= made + seq![0x03u8, 0, 0]);
    }
    code.pop();
    code.pop();
    code.pop();
    code.push(0x03);
    code.push(0x3C);
    proof {
        assert(code@ =~= made + seq![0x03u8, 0x3C]);
    }
    let ghost stores_start = made + seq![0x03u8, 0x3C];
    let mut j: usize = 0;
    while j < n
        invariant
            j <= n,
            code@ == stores_start + store_code(j as nat),
        decreases n - j,
    {
        code.push(0x4D);
        code.push(0x2A);
        code.push(0x1B);
        code.push(0x2C);
        code.push(0x53);
        code.push(0x84);
        code.push(1);
        code.push(1);
        proof {
            assert(code@ =~= stores_start + store_code((j + 1) as nat));
        }
        j += 1;
    }
    code.push(0x2A);
    code.push(0xB0);
    proof {
        assert(code@ =~= trace_code(es));
    }
    let method = Method {
        class: 0,
        is_static: true,
        is_native: false,
        is_synchronized: false,
        name: String::from_str("<fill-in-stack-trace>"),
        descriptor: trace_method_type_value(),
        code: Some(Code { max_stack: 0, max_locals: 3, code, ex_table: Vec::new(), attributes: Vec::new() }),
    };
    let mut methods: Vec<Method> = Vec::new();
    methods.push(method);
    let class = Class {
        name,
        flags: ClassFlags { bits: 0 },
        const_pool: ConstPool { pool },
        super_class: None,
        interfaces: Vec::new(),
        instance_fields: Vec::new(),
        static_fields: Vec::new(),
        methods,
        attributes: Vec::new(),
        instance_width: 0,
        static_width: 0,
        source_file: None,
    };
    proof {
        let m = trace_class(name@, es);
        assert(class@.const_pool =~= m.const_pool);
        assert(class@.instance_fields =~= m.instance_fields);
        assert(class@.static_fields =~= m.static_fields);
        assert(class@.methods[0].code->Some_0.ex_table =~= Seq::<crate::class_file::ExHandler>::empty());
        assert(class@.methods[0].code->Some_0.attributes =~= Seq::<CodeAttributeModel>::empty());
        assert(class@.methods =~= m.methods);
    }
    class
}

/// Whether the constants of the elements fit in a constant pool, whose indices are `u16`.
fn fits_pool(elems: &Vec<StackElem>) -> (b: bool)
    ensures
        b == (next_index(elem_models(elems@)) <= u16::MAX),
{
    let ghost es = elem_models(elems@);
    let mut idx: u32 = 4;
    let mut i: usize = 0;
    proof {
        assert(es.take(0) =~= Seq::<StackElemModel>::empty());
    }
    while i < elems.len()
        invariant
            es == elem_models(elems@),
            i <= elems@.len(),
            idx == next_index(es.take(i as int)),
            idx <= u16::MAX,
        decreases elems.len() - i,
    {
        proof {
            assert(es.take(i + 1).drop_last() =~= es.take(i as int));
            assert(es[i as int] == elems@[i as int]@);
        }
        idx = match &elems[i].file {
            Some(_) => idx + 4,
            None => idx + 3,
        };
        if idx > 0xFFFF {
            proof {
                lemma_next_index_prefix(es, i + 1);
            }
            return false;
        }
        i += 1;
    }
    proof {
        assert(es.take(elems.len() as int) =~= es);
    }
    true
}

/// Why a stack trace could not be made.
pub enum TraceFault {
    /// The runtime must do this first.
    Need(Need),
    /// The line of a frame of the trace is not known: the line number table of its method has
    /// no entry at or before where the frame is.
    LineUnknown,
    /// The trace has more constants than a constant pool holds.
    TooLong,
    /// The generated class has the name of a class whose fields the runtime sets, and lacks
    /// them.
    Refused,
}

/// What making the class of a stack trace of the frames `t`, named `name`, does to the runtime
/// `r`, giving `r2` and `res`.
pub open spec fn filled(t: Seq<FrameModel>, r: RuntimeModel, name: Seq<char>, r2: RuntimeModel, res: Result<usize, TraceFault>) -> bool {
    let classes = r.area.classes;
    match find_name(classes, "java.lang.Throwable"@) {
        None => res matches Err(TraceFault::Need(Need::Class(n))) && n@ == "java.lang.Throwable"@ && r2 == r,
        Some(tc) => if !lines_known(t, classes, traced_count(t, classes, tc, 0)) {
            res matches Err(TraceFault::LineUnknown) && r2 == r
        } else if next_index(stack_trace(t, classes, tc)) > u16::MAX {
            res matches Err(TraceFault::TooLong) && r2 == r
        } else {
            let c = trace_class(name, stack_trace(t, classes, tc));
            match find_name(classes, name) {
                Some(i) => res == Ok::<usize, TraceFault>(i as usize) && r2 == r,
                None => if has_runtime_fields(classes, c) {
                    &&& res == Ok::<usize, TraceFault>(classes.len() as usize)
                    &&& r2 == (RuntimeModel {
                        area: MethodAreaModel { classes: classes.push(c), initialized: r.area.initialized.push(false) },
                        ..r
                    })
                } else {
                    res matches Err(TraceFault::Refused) && r2 == r
                },
            }
        },
    }
}

/// `Throwable.fillInStackTrace`: add to the method area the class, named `name`, whose method
/// builds the stack trace of `thread` (see [`stack_elems`]) as an array; returns the index of
/// that class. The caller runs its method and stores what it returns with
/// [`store_stack_trace`].
pub fn fill_in_stack_trace(thread: &Thread, runtime: &mut Runtime, name: String) -> (res: Result<usize, TraceFault>)
    requires
        runtime_wf(old(runtime)@),
        frames_in(thread@, old(runtime)@.area.classes),
    ensures
        runtime_wf(final(runtime)@),
        filled(thread@, old(runtime)@, name@, final(runtime)@, res),
{
    let ghost classes = runtime@.area.classes;
    let throwable_name = String::from_str("java.lang.Throwable");
    proof {
        reveal_strlit("java.lang.Throwable");
        crate::method_area::lemma_find_name_bounds(classes, "java.lang.Throwable"@);
    }
    let throwable = match runtime.method_area().find_class(&throwable_name) {
        Some(t) => t,
        None => return Err(TraceFault::Need(Need::Class(throwable_name))),
    };
    let elems = match stack_elems(thread, runtime.method_area(), throwable) {
        Some(e) => e,
        None => return Err(TraceFault::LineUnknown),
    };
    if !fits_pool(&elems) {
        return Err(TraceFault::TooLong);
    }
    let class = make_trace_class(name, &elems);
    match runtime.insert_gen_class(class) {
        Some(i) => Ok(i),
        None => Err(TraceFault::Refused),
    }
}

/// The type of the `stackTrace` field of `java.lang.Throwable`.
pub open spec fn stack_trace_field_type() -> TypeModel {
    TypeModel::Array(Box::new(TypeModel::Reference("java/lang/StackTraceElement"@)))
}

/// The slot of the `stackTrace` field in the object `o`, when its class is loaded, has that
/// field, and the object has that slot.
pub open spec fn stack_trace_slot(r: RuntimeModel, o: ObjectModel) -> Option<int> {
    if o.class < r.area.classes.len() {
        match field_slot(r.area.classes, o.class as int, "stackTrace"@, stack_trace_field_type()) {
            Some(k) => if k < o.fields.len() {
                Some(k)
            } else {
                None
            },
            None => None,
        }
    } else {
        None
    }
}

/// Store the reference `trace` in the `stackTrace` field of the throwable object `throwable`
/// refers to; false, changing nothing, when the object has no such field.
pub fn store_stack_trace(runtime: &mut Runtime, throwable: Reference, trace: Reference) -> (done: bool)
    requires
        runtime_wf(old(runtime)@),
        is_object(old(runtime)@.heap, throwable.0),
    ensures
        runtime_wf(final(runtime)@),
        ({
            let o = old(runtime)@.heap[throwable.0]->Object_0;
            match stack_trace_slot(old(runtime)@, o) {
                Some(k) => done && final(runtime)@ == (RuntimeModel {
                    heap: old(runtime)@.heap.insert(
                        throwable.0,
                        HeapedModel::Object(ObjectModel { fields: o.fields.update(k, Value::Reference(trace)), ..o }),
                    ),
                    ..old(runtime)@
                }),
                None => !done && final(runtime)@ == old(runtime)@,
            }
        }),
{
    let object = runtime.heap().get_object(throwable);
    let class = object.class();
    let count = object.field_count();
    if class >= runtime.method_area().len() {
        return false;
    }
    let name = String::from_str("stackTrace");
    let element = FieldType::Reference(String::from_str("java/lang/StackTraceElement"));
    let descriptor = FieldType::Array(Box::new(element));
    proof {
        reveal_strlit("stackTrace");
        reveal_with_fuel(crate::java::field_type::model_of, 2);
        assert(descriptor@ == stack_trace_field_type());
    }
    match runtime.method_area().field_slot(class, &name, &descriptor) {
        Some(slot) => {
            if slot >= count {
                return false;
            }
            runtime.set_field(throwable, slot, Value::Reference(trace));
            true
        },
        None => false,
    }
}

} // verus!
