use std::collections::HashMap;

use robusta::class_file::const_pool::{Class, Const, MethodRef, NameAndType, Utf8};
use robusta::class_file::{ClassFile, Code, Method, MethodAttribute};
use robusta::heap::Heaped;
use robusta::instruction::throw::{throw_uncaught, unwind, Unwound};
use robusta::instruction::{instruction, Step};
use robusta::java::{Int, Value};
use robusta::runtime::{Need, Runtime};
use robusta::shim::create_main_thread;
use robusta::thread::{Frame, Thread};

fn utf8(s: &str) -> Const {
    Const::Utf8(Utf8 { bytes: s.as_bytes().to_vec() })
}

/// A class `Calc` with `add(II)I` and `run()V`, and a method reference to `add`.
fn calc_file() -> ClassFile {
    let mut pool = HashMap::new();
    pool.insert(1, utf8("Calc"));
    pool.insert(2, Const::Class(Class { name: 1 }));
    pool.insert(3, utf8("add"));
    pool.insert(4, utf8("(II)I"));
    pool.insert(5, Const::NameAndType(NameAndType { name: 3, descriptor: 4 }));
    pool.insert(6, Const::MethodRef(MethodRef { class: 2, name_and_type: 5 }));
    pool.insert(7, utf8("run"));
    pool.insert(8, utf8("()V"));
    let add = Code { max_stack: 2, max_locals: 3, code: vec![0x1B, 0x1C, 0x60, 0xAC], ex_table: vec![], attributes: vec![] };
    let run = Code { max_stack: 4, max_locals: 1, code: vec![0xB1], ex_table: vec![], attributes: vec![] };
    ClassFile {
        magic: 0xCAFEBABE,
        minor_version: 0,
        major_version: 52,
        const_pool: pool,
        access_flags: 0x21,
        this_class: 2,
        super_class: 0,
        fields: vec![],
        methods: vec![
            Method { access_flags: 0x0001, name: 3, descriptor: 4, attributes: vec![MethodAttribute::Code(add)] },
            Method { access_flags: 0x0009, name: 7, descriptor: 8, attributes: vec![MethodAttribute::Code(run)] },
        ],
        attributes: vec![],
    }
}

fn running(code: Vec<u8>, locals: u16) -> Thread {
    let mut thread = Thread::new(None);
    thread.push_frame(Frame::new(code, locals, 0, 1));
    thread
}

fn calc_runtime() -> Runtime {
    let mut rt = Runtime::new();
    rt.load_class_file("Calc".to_string(), &calc_file(), None).unwrap();
    rt
}

#[test]
fn constants_and_addition() {
    let mut rt = calc_runtime();
    let mut thread = running(vec![0x04, 0x05, 0x60, 0x3B], 1);
    for _ in 0..4 {
        assert!(matches!(instruction(&mut thread, &mut rt), Step::Next));
    }
    let frame = thread.frame(0);
    assert_eq!(frame.pc, 4);
    assert_eq!(frame.operand_stack.len(), 0);
    assert!(matches!(frame.local_vars.get(0), Value::Int(Int(3))));
}

#[test]
fn malformed_code_changes_nothing() {
    let mut rt = calc_runtime();
    // iadd with nothing on the stack.
    let mut thread = running(vec![0x60], 1);
    assert!(matches!(instruction(&mut thread, &mut rt), Step::Malformed));
    assert_eq!(thread.frame(0).pc, 0);
    // No code left at all.
    let mut thread = running(vec![], 1);
    assert!(matches!(instruction(&mut thread, &mut rt), Step::Malformed));
    // A local that does not exist.
    let mut thread = running(vec![0x1D], 1);
    assert!(matches!(instruction(&mut thread, &mut rt), Step::Malformed));
}

#[test]
fn unsupported_opcode_is_reported() {
    let mut rt = calc_runtime();
    let mut thread = running(vec![0x10, 7], 1);
    assert!(matches!(instruction(&mut thread, &mut rt), Step::Unsupported(0x10)));
    assert_eq!(thread.frame(0).pc, 0);
}

#[test]
fn branches_jump_from_their_opcode() {
    let mut rt = calc_runtime();
    // iconst_0; ifeq +5 (to 6); iconst_1; iconst_1; iconst_1; iconst_2
    let mut thread = running(vec![0x03, 0x99, 0x00, 0x05, 0x04, 0x04, 0x05], 1);
    assert!(matches!(instruction(&mut thread, &mut rt), Step::Next));
    assert!(matches!(instruction(&mut thread, &mut rt), Step::Next));
    assert_eq!(thread.frame(0).pc, 6);
    assert!(matches!(instruction(&mut thread, &mut rt), Step::Next));
    assert!(matches!(thread.frame(0).operand_stack.peek(0), Value::Int(Int(2))));
}

#[test]
fn invoke_needs_initialization_then_calls() {
    let mut rt = calc_runtime();
    let obj = rt.new_instance(0);
    let mut thread = Thread::new(None);
    let mut frame = Frame::new(vec![0xB7, 0, 6, 0x3B], 1, 0, 1);
    frame.operand_stack.push(Value::Reference(obj));
    frame.operand_stack.push(Value::Int(Int(20)));
    frame.operand_stack.push(Value::Int(Int(22)));
    thread.push_frame(frame);

    match instruction(&mut thread, &mut rt) {
        Step::Need(Need::Initialization(0)) => {},
        _ => panic!("expected Calc to be initialized first"),
    }
    assert_eq!(thread.frame(0).pc, 0);
    assert_eq!(rt.method_area.start_initialize(0), None);

    assert!(matches!(instruction(&mut thread, &mut rt), Step::Next));
    assert_eq!(thread.depth(), 2);
    // The callee adds its arguments and returns the sum to the caller.
    for _ in 0..4 {
        assert!(matches!(instruction(&mut thread, &mut rt), Step::Next));
    }
    assert_eq!(thread.depth(), 1);
    assert_eq!(thread.frame(0).pc, 3);
    assert!(matches!(thread.frame(0).operand_stack.peek(0), Value::Int(Int(42))));
}

#[test]
fn new_primitive_array() {
    let mut rt = calc_runtime();
    // iconst_5; newarray int; arraylength
    let mut thread = running(vec![0x08, 0xBC, 10, 0xBE], 1);
    assert!(matches!(instruction(&mut thread, &mut rt), Step::Next));
    assert!(matches!(instruction(&mut thread, &mut rt), Step::Next));
    let array = match thread.frame(0).operand_stack.peek(0) {
        Value::Reference(r) => r,
        _ => panic!("expected an array reference"),
    };
    assert!(matches!(rt.heap().get(array), Heaped::Array(a) if a.length() == Int(5)));
    assert!(matches!(instruction(&mut thread, &mut rt), Step::Next));
    assert!(matches!(thread.frame(0).operand_stack.peek(0), Value::Int(Int(5))));
}

#[test]
fn return_leaves_the_frame() {
    let mut rt = calc_runtime();
    let mut thread = running(vec![0xB1], 1);
    assert!(matches!(instruction(&mut thread, &mut rt), Step::Next));
    assert_eq!(thread.depth(), 0);
}

#[test]
fn main_thread_class_builds_the_launcher() {
    let class = create_main_thread();
    assert_eq!(class.name, "<main-thread>");
    assert_eq!(class.methods.len(), 1);
    assert!(class.methods[0].is_static);
    assert_eq!(class.methods[0].code.as_ref().unwrap().code, vec![0xBB, 0, 1, 0x59, 0xB7, 0, 2]);
    let mut rt = Runtime::new();
    let index = rt.insert_gen_class(create_main_thread()).unwrap();
    assert_eq!(index, 0);
    // Running it asks for the launcher class.
    let mut thread = Thread::new(None);
    thread.push_frame(Frame::new(vec![0xBB, 0, 1, 0x59, 0xB7, 0, 2], 0, 0, 0));
    match instruction(&mut thread, &mut rt) {
        Step::Need(Need::Class(name)) => assert_eq!(name, "sun.misc.Launcher"),
        _ => panic!("expected the launcher class to be asked for"),
    }
}

/// A class `Boom` whose method `run()V` (index 0) throws what is on its stack, with a
/// handler over its first bytes catching `Boom`, and one catching `Other` before it; and a
/// method `stackTraceAndExit()V` (index 1).
fn boom_file() -> ClassFile {
    let mut pool = HashMap::new();
    pool.insert(1, utf8("Boom"));
    pool.insert(2, Const::Class(Class { name: 1 }));
    pool.insert(3, utf8("run"));
    pool.insert(4, utf8("()V"));
    pool.insert(5, utf8("stackTraceAndExit"));
    pool.insert(6, utf8("Other"));
    pool.insert(7, Const::Class(Class { name: 6 }));
    let run = Code {
        max_stack: 2,
        max_locals: 1,
        code: vec![0x2A, 0xBF, 0x00, 0xB1],
        ex_table: vec![
            robusta::class_file::ExHandler { start_pc: 0, end_pc: 2, handler_pc: 3, catch_type: 7 },
            robusta::class_file::ExHandler { start_pc: 0, end_pc: 2, handler_pc: 3, catch_type: 2 },
        ],
        attributes: vec![],
    };
    let exit = Code { max_stack: 1, max_locals: 1, code: vec![0xB1], ex_table: vec![], attributes: vec![] };
    ClassFile {
        magic: 0xCAFEBABE,
        minor_version: 0,
        major_version: 52,
        const_pool: pool,
        access_flags: 0x21,
        this_class: 2,
        super_class: 0,
        fields: vec![],
        methods: vec![
            Method { access_flags: 0x0009, name: 3, descriptor: 4, attributes: vec![MethodAttribute::Code(run)] },
            Method { access_flags: 0x0001, name: 5, descriptor: 4, attributes: vec![MethodAttribute::Code(exit)] },
        ],
        attributes: vec![],
    }
}

fn other_file() -> ClassFile {
    let mut file = boom_file();
    file.const_pool.insert(1, utf8("Other"));
    file.methods.clear();
    file
}

#[test]
fn athrow_is_caught_by_a_handler() {
    let mut rt = Runtime::new();
    rt.load_class_file("Boom".to_string(), &boom_file(), None).unwrap();
    let boom = rt.new_instance(0);
    let mut thread = Thread::new(None);
    let mut frame = Frame::new(vec![0x2A, 0xBF, 0x00, 0xB1], 1, 0, 0);
    frame.local_vars.store_value(0, Value::Reference(boom));
    thread.push_frame(frame);
    assert!(matches!(instruction(&mut thread, &mut rt), Step::Next));
    let thrown = match instruction(&mut thread, &mut rt) {
        Step::Thrown(r) => r,
        _ => panic!("expected a throw"),
    };
    assert_eq!(thrown, boom);
    // The first handler in range names Other, which is not loaded.
    match unwind(&mut thread, &mut rt, thrown) {
        Unwound::Need(Need::Class(name)) => assert_eq!(name, "Other"),
        _ => panic!("expected Other to be asked for"),
    }
    rt.load_class_file("Other".to_string(), &other_file(), None).unwrap();
    assert!(matches!(unwind(&mut thread, &mut rt, thrown), Unwound::Caught));
    assert_eq!(thread.frame(0).pc, 3);
    assert!(matches!(thread.frame(0).operand_stack.peek(0), Value::Reference(r) if r == boom));
}

#[test]
fn uncaught_throw_unwinds_every_frame() {
    let mut rt = Runtime::new();
    rt.load_class_file("Boom".to_string(), &boom_file(), None).unwrap();
    rt.load_class_file("Other".to_string(), &other_file(), None).unwrap();
    let other = rt.new_instance(1);
    let mut thread = Thread::new(None);
    // Other is not a Boom, and Other's entry names a class Other is an instance of: caught.
    // So throw from outside the handlers' range instead.
    let mut frame = Frame::new(vec![0x2A, 0xBF, 0x00, 0xB1], 1, 0, 0);
    frame.pc = 4;
    thread.push_frame(frame);
    assert!(matches!(unwind(&mut thread, &mut rt, other), Unwound::Uncaught));
    assert_eq!(thread.depth(), 0);
    // Other has no stackTraceAndExit; Boom has.
    assert!(!throw_uncaught(&mut thread, &rt, other));
    let boom = rt.new_instance(0);
    assert!(throw_uncaught(&mut thread, &rt, boom));
    assert_eq!(thread.depth(), 1);
    assert!(matches!(thread.frame(0).local_vars.get(0), Value::Reference(r) if r == boom));
}
