use std::collections::HashMap;

use robusta::class_file::const_pool::{Class, Const, Utf8};
use robusta::class_file::{ClassFile, Code, Method, MethodAttribute};
use robusta::heap::allocator::ArrayType;
use robusta::heap::Heap;
use robusta::instruction::math::{i_neg, irem};
use robusta::instruction::{instruction, Step};
use robusta::java::{Int, Reference, Value};
use robusta::runtime::Runtime;
use robusta::thread::{Frame, Thread};

fn utf8(s: &str) -> Const {
    Const::Utf8(Utf8 { bytes: s.as_bytes().to_vec() })
}

/// A class whose constant pool names the class itself at index 2, with one method.
fn named_file(name: &str) -> ClassFile {
    let mut pool = HashMap::new();
    pool.insert(1, utf8(name));
    pool.insert(2, Const::Class(Class { name: 1 }));
    pool.insert(3, utf8("run"));
    pool.insert(4, utf8("()V"));
    let run = Code { max_stack: 2, max_locals: 1, code: vec![0xB1], ex_table: vec![], attributes: vec![] };
    ClassFile {
        magic: 0xCAFEBABE,
        minor_version: 0,
        major_version: 52,
        const_pool: pool,
        access_flags: 0x21,
        this_class: 2,
        super_class: 0,
        fields: vec![],
        methods: vec![Method { access_flags: 0x0009, name: 3, descriptor: 4, attributes: vec![MethodAttribute::Code(run)] }],
        attributes: vec![],
    }
}

/// A thread whose only frame holds `values` on its operand stack.
fn holding(values: &[Value]) -> Thread {
    let mut frame = Frame::new(vec![], 1, 0, 0);
    for v in values {
        frame.operand_stack.push(*v);
    }
    let mut thread = Thread::new(None);
    thread.push_frame(frame);
    thread
}

/// Run `instanceof` on `value` in a frame of the only class, named `name`, testing against
/// that class.
fn instance_of_own_class(name: &str, make: fn(&mut Runtime) -> Reference) -> Value {
    let mut rt = Runtime::new();
    rt.load_class_file(name.replace('/', "."), &named_file(name), None).unwrap();
    let reference = make(&mut rt);
    let mut frame = Frame::new(vec![0xC1, 0, 2], 1, 0, 0);
    frame.operand_stack.push(Value::Reference(reference));
    let mut thread = Thread::new(None);
    thread.push_frame(frame);
    assert!(matches!(instruction(&mut thread, &mut rt), Step::Next));
    thread.frame(0).operand_stack.peek(0)
}

fn int_array(rt: &mut Runtime) -> Reference {
    rt.heap_mut().new_array(ArrayType::Int, Int(3))
}

#[test]
fn array_descriptors_are_the_jvm_ones() {
    assert_eq!(ArrayType::BooleanOrByte.descriptor(), "[B");
    assert_eq!(ArrayType::Char.descriptor(), "[C");
    assert_eq!(ArrayType::Short.descriptor(), "[S");
    assert_eq!(ArrayType::Int.descriptor(), "[I");
    assert_eq!(ArrayType::Long.descriptor(), "[J");
    assert_eq!(ArrayType::Float.descriptor(), "[F");
    assert_eq!(ArrayType::Double.descriptor(), "[D");
}

#[test]
fn negating_the_most_negative_int_wraps() {
    let mut thread = holding(&[Value::Int(Int(i32::MIN))]);
    i_neg(&mut thread);
    assert!(matches!(thread.frame(0).operand_stack.peek(0), Value::Int(Int(i32::MIN))));
    let mut thread = holding(&[Value::Int(Int(7))]);
    i_neg(&mut thread);
    assert!(matches!(thread.frame(0).operand_stack.peek(0), Value::Int(Int(-7))));
}

#[test]
fn remainder_of_the_overflowing_quotient_is_zero() {
    let mut thread = holding(&[Value::Int(Int(i32::MIN)), Value::Int(Int(-1))]);
    irem(&mut thread);
    assert!(matches!(thread.frame(0).operand_stack.peek(0), Value::Int(Int(0))));
    let mut thread = holding(&[Value::Int(Int(-7)), Value::Int(Int(2))]);
    irem(&mut thread);
    assert!(matches!(thread.frame(0).operand_stack.peek(0), Value::Int(Int(-1))));
}

#[test]
fn new_references_are_never_null() {
    let mut heap = Heap::new();
    for _ in 0..1000 {
        let r = heap.new_array(ArrayType::Int, Int(1));
        assert_ne!(r.0, 0);
    }
    assert_eq!(heap.len(), 1000);
}

#[test]
fn every_array_is_an_object() {
    let result = instance_of_own_class("java/lang/Object", int_array);
    assert!(matches!(result, Value::Int(Int(1))));
    let result = instance_of_own_class("java/io/Serializable", int_array);
    assert!(matches!(result, Value::Int(Int(1))));
}

#[test]
fn an_array_is_no_instance_of_another_class() {
    let result = instance_of_own_class("Calc", int_array);
    assert!(matches!(result, Value::Int(Int(0))));
}

#[test]
fn an_object_is_an_instance_of_its_class() {
    let result = instance_of_own_class("Calc", |rt| rt.new_instance(0));
    assert!(matches!(result, Value::Int(Int(1))));
}
