use std::collections::{HashMap, HashSet};

use robusta::class_file::const_pool::{Class, Const, FieldRef, Integer, NameAndType, String as StringConst, Utf8};
use robusta::class_file::{ClassAttribute, ClassFile, Field, Method, SourceFile};
use robusta::heap::HeapedModel;
use robusta::instruction::field::{get_field, put_field};
use robusta::instruction::op_name;
use robusta::java::{FieldType, Int, Reference, Value};
use robusta::method_area::const_pool::{Const as RuntimeConst, ConstPool};
use robusta::method_area::layout::{define_class, super_class_name};
use robusta::method_area::MethodArea;
use robusta::runtime::Runtime;
use robusta::thread::{Frame, Thread};

fn utf8(s: &str) -> Const {
    Const::Utf8(Utf8 { bytes: s.as_bytes().to_vec() })
}

/// A class `Point` with fields `x: int`, `y: long`, `flag: boolean` and a static `count: int`,
/// and a method `run()V`.
fn point_file(super_class: u16) -> ClassFile {
    let mut pool = HashMap::new();
    pool.insert(1, utf8("Point"));
    pool.insert(2, Const::Class(Class { name: 1 }));
    pool.insert(3, utf8("x"));
    pool.insert(4, utf8("I"));
    pool.insert(5, utf8("J"));
    pool.insert(6, utf8("y"));
    pool.insert(7, utf8("Z"));
    pool.insert(8, utf8("flag"));
    pool.insert(9, Const::NameAndType(NameAndType { name: 3, descriptor: 4 }));
    pool.insert(10, Const::FieldRef(FieldRef { class: 2, name_and_type: 9 }));
    pool.insert(11, utf8("java/lang/Object"));
    pool.insert(12, Const::Class(Class { name: 11 }));
    pool.insert(13, Const::Integer(Integer { int: 42 }));
    pool.insert(14, Const::String(StringConst { string: 3 }));
    pool.insert(15, utf8("count"));
    pool.insert(16, utf8("run"));
    pool.insert(17, utf8("()V"));
    pool.insert(18, utf8("Point.java"));
    ClassFile {
        magic: 0xCAFEBABE,
        minor_version: 0,
        major_version: 52,
        const_pool: pool,
        access_flags: 0x21,
        this_class: 2,
        super_class,
        fields: vec![
            Field { access_flags: 0, name: 3, descriptor: 4 },
            Field { access_flags: 0, name: 6, descriptor: 5 },
            Field { access_flags: 0, name: 8, descriptor: 7 },
            Field { access_flags: 0x0008, name: 15, descriptor: 4 },
        ],
        methods: vec![Method { access_flags: 0x0009, name: 16, descriptor: 17, attributes: vec![] }],
        attributes: vec![ClassAttribute::SourceFile(SourceFile { source_file: 18 })],
    }
}

/// A class `Node` with one field `next: Node`.
fn node_file() -> ClassFile {
    let mut pool = HashMap::new();
    pool.insert(1, utf8("Node"));
    pool.insert(2, Const::Class(Class { name: 1 }));
    pool.insert(3, utf8("next"));
    pool.insert(4, utf8("LNode;"));
    pool.insert(5, Const::NameAndType(NameAndType { name: 3, descriptor: 4 }));
    pool.insert(6, Const::FieldRef(FieldRef { class: 2, name_and_type: 5 }));
    ClassFile {
        magic: 0xCAFEBABE,
        minor_version: 0,
        major_version: 52,
        const_pool: pool,
        access_flags: 0x21,
        this_class: 2,
        super_class: 0,
        fields: vec![Field { access_flags: 0, name: 3, descriptor: 4 }],
        methods: vec![],
        attributes: vec![],
    }
}

#[test]
fn const_pool_from_class_file() {
    let file = point_file(12);
    let pool = ConstPool::new(&file);

    assert!(matches!(pool.get_const(13), RuntimeConst::Integer(42)));
    assert_eq!(pool.get_class(2).const_key.name, "Point");
    assert_eq!(pool.get_class(12).const_key.name, "java.lang.Object");
    let field = pool.get_field(10);
    assert_eq!(field.const_key.class, "Point");
    assert_eq!(field.const_key.name, "x");
    assert_eq!(field.const_key.descriptor, FieldType::Int);
    match pool.get_const(14) {
        RuntimeConst::String(s) => assert_eq!(s.const_key, "x"),
        _ => panic!("expected a string constant"),
    }
    assert!(!pool.pool.contains_key(&1));
    assert!(!pool.pool.contains_key(&9));
}

#[test]
fn field_layout_sorted_by_width() {
    let file = point_file(0);
    let class = define_class("Point".to_string(), &file, 0, None, 0);

    let names: Vec<&str> = class.instance_fields.iter().map(|f| f.name.as_str()).collect();
    assert_eq!(names, vec!["y", "x", "flag"]);
    let offsets: Vec<usize> = class.instance_fields.iter().map(|f| f.offset).collect();
    assert_eq!(offsets, vec![0, 8, 12]);
    assert_eq!(class.instance_width, 16);

    assert_eq!(class.static_fields.len(), 1);
    assert_eq!(class.static_fields[0].name, "count");
    assert_eq!(class.static_fields[0].offset, 0);
    assert_eq!(class.static_width, 8);

    assert_eq!(class.methods.len(), 1);
    assert!(class.methods[0].is_static);
    assert!(!class.methods[0].is_native);
    assert_eq!(class.methods[0].name, "run");
    assert_eq!(class.source_file, Some("Point.java".to_string()));
}

#[test]
fn field_layout_after_super_class() {
    let file = point_file(0);
    let class = define_class("Point".to_string(), &file, 1, Some(0), 12);

    let offsets: Vec<usize> = class.instance_fields.iter().map(|f| f.offset).collect();
    assert_eq!(offsets, vec![12, 20, 24]);
    // 25 bytes of fields, padded to the next multiple of four.
    assert_eq!(class.instance_width, 28);
    assert_eq!(class.super_class, Some(0));
}

#[test]
fn field_layout_pads_a_whole_alignment() {
    // Fields ending on a multiple of four still get four bytes of padding.
    let file = node_file();
    let class = define_class("Node".to_string(), &file, 0, None, 0);
    assert_eq!(class.instance_fields[0].offset, 0);
    assert_eq!(class.instance_width, 8);
    assert_eq!(class.static_width, 4);
}

#[test]
fn layout_fields_do_not_overlap() {
    let file = point_file(0);
    let class = define_class("Point".to_string(), &file, 0, None, 4);
    let fields = &class.instance_fields;
    for i in 0..fields.len() {
        assert!(fields[i].offset >= 4);
        assert!(fields[i].offset + fields[i].width <= class.instance_width);
        for j in (i + 1)..fields.len() {
            assert!(fields[i].offset + fields[i].width <= fields[j].offset);
        }
    }
    assert_eq!(class.instance_width % 4, 0);
}

#[test]
fn super_class_name_of_file() {
    assert_eq!(super_class_name(&point_file(12)), Some("java.lang.Object".to_string()));
    assert_eq!(super_class_name(&point_file(0)), None);
}

#[test]
fn method_area_loads_a_class_once() {
    let mut area = MethodArea::new();
    let first = area.load_class_file("Point".to_string(), &point_file(0), None);
    let again = area.load_class_file("Point".to_string(), &point_file(0), None);
    assert_eq!(first, 0);
    assert_eq!(again, 0);
    assert_eq!(area.len(), 1);
    let sub = area.load_class_file("Node".to_string(), &node_file(), Some(0));
    assert_eq!(sub, 1);
    // The sub class's fields start after the super class's data.
    assert_eq!(area.class(1).instance_fields[0].offset, 16);
}

#[test]
fn runtime_loads_class_with_static_object() {
    let mut rt = Runtime::new();
    let index = rt.load_class_file("Point".to_string(), &point_file(0), None).unwrap();
    assert_eq!(index, 0);
    let statics = rt.find_static_object(0).unwrap();
    match rt.heap().get(statics) {
        robusta::heap::Heaped::Object(o) => {
            assert_eq!(o.field_count(), 1);
            assert!(matches!(o.get_field(0), Value::Int(Int(0))));
        }
        _ => panic!("expected the static object"),
    }
    // Loading it again makes no second static object.
    assert_eq!(rt.load_class_file("Point".to_string(), &point_file(0), None), Some(0));
    assert_eq!(rt.heap().len(), 1);
}

#[test]
fn runtime_refuses_string_class_without_value() {
    let mut rt = Runtime::new();
    assert_eq!(rt.load_class_file("java.lang.String".to_string(), &node_file(), None), None);
    assert_eq!(rt.method_area().len(), 0);
}

fn node_runtime() -> (Runtime, Reference, Reference, Reference) {
    let mut rt = Runtime::new();
    rt.load_class_file("Node".to_string(), &node_file(), None).unwrap();
    let a = rt.new_instance(0);
    let b = rt.new_instance(0);
    let c = rt.new_instance(0);
    rt.set_field(a, 0, Value::Reference(b));
    rt.set_field(b, 0, Value::Reference(a));
    rt.set_field(c, 0, Value::Reference(c));
    (rt, a, b, c)
}

#[test]
fn garbage_collection_keeps_what_is_reachable() {
    let (mut rt, a, b, c) = node_runtime();
    let mut roots = HashSet::new();
    roots.insert(a.0);
    rt.collect_garbage(&roots);
    assert_eq!(rt.heap().len(), 2);
    assert!(matches!(rt.heap().get(a), robusta::heap::Heaped::Object(_)));
    assert!(matches!(rt.heap().get(b), robusta::heap::Heaped::Object(_)));
    let _ = c;
}

#[test]
fn garbage_collection_twice_keeps_everything() {
    let (mut rt, a, _b, _c) = node_runtime();
    let mut roots = HashSet::new();
    roots.insert(a.0);
    rt.collect_garbage(&roots);
    let after_once = rt.heap().len();
    rt.collect_garbage(&roots);
    assert_eq!(rt.heap().len(), after_once);
}

#[test]
fn garbage_collection_without_roots_empties_the_heap() {
    let (mut rt, _a, _b, _c) = node_runtime();
    rt.collect_garbage(&HashSet::new());
    assert_eq!(rt.heap().len(), 0);
}

fn frame_with(code: Vec<u8>) -> Thread {
    let mut thread = Thread::new(None);
    thread.push_frame(Frame::new(code, 2, 0, 0));
    thread
}

#[test]
fn get_and_put_field() {
    let mut rt = Runtime::new();
    rt.load_class_file("Node".to_string(), &node_file(), None).unwrap();
    rt.method_area.mark_initialized(0);
    let a = rt.new_instance(0);
    let b = rt.new_instance(0);

    // putfield #6 with a.next = b
    let mut thread = frame_with(vec![0, 6]);
    let mut frame = thread.pop_frame();
    frame.operand_stack.push(Value::Reference(a));
    frame.operand_stack.push(Value::Reference(b));
    thread.push_frame(frame);
    assert!(put_field(&mut thread, &mut rt).is_ok());
    assert_eq!(thread.frame(0).pc, 2);
    assert_eq!(thread.frame(0).operand_stack.len(), 0);

    // getfield #6 on a gives b
    let mut thread = frame_with(vec![0, 6]);
    let mut frame = thread.pop_frame();
    frame.operand_stack.push(Value::Reference(a));
    thread.push_frame(frame);
    assert!(get_field(&mut thread, &rt).is_ok());
    assert!(matches!(thread.frame(0).operand_stack.peek(0), Value::Reference(r) if r == b));
}

#[test]
fn get_field_reads_a_field_of_its_own_class() {
    let mut rt = Runtime::new();
    rt.load_class_file("Point".to_string(), &point_file(0), None).unwrap();
    rt.method_area.mark_initialized(0);
    // Point's pool has a field reference to Point.x at 10.
    let mut thread = frame_with(vec![0, 10]);
    let mut frame = thread.pop_frame();
    let p = rt.new_instance(0);
    frame.operand_stack.push(Value::Reference(p));
    thread.push_frame(frame);
    assert!(get_field(&mut thread, &rt).is_ok());
    assert!(matches!(thread.frame(0).operand_stack.peek(0), Value::Int(Int(0))));
}

#[test]
fn op_names() {
    assert_eq!(op_name(0xB4), "getfield");
    assert_eq!(op_name(0x01), "aconst_null");
    assert_eq!(op_name(0xC7), "ifnonnull");
}

#[test]
fn get_field_reports_class_to_load() {
    // Point's field reference names Point, which this runtime has not loaded: only Node is.
    let mut rt = Runtime::new();
    rt.load_class_file("Node".to_string(), &node_file(), None).unwrap();
    let file = point_file(0);
    rt.load_class_file("Other".to_string(), &file, None).unwrap();
    let mut thread = Thread::new(None);
    thread.push_frame(Frame::new(vec![0, 10], 2, 1, 0));
    let result = get_field(&mut thread, &rt);
    match result {
        Err(robusta::runtime::Need::Class(name)) => assert_eq!(name, "Point"),
        _ => panic!("expected a class to load"),
    }
    assert_eq!(thread.frame(0).pc, 0);
}

#[test]
fn get_field_reports_class_to_initialize() {
    let mut rt = Runtime::new();
    rt.load_class_file("Node".to_string(), &node_file(), None).unwrap();
    let mut thread = frame_with(vec![0, 6]);
    match get_field(&mut thread, &rt) {
        Err(robusta::runtime::Need::Initialization(k)) => assert_eq!(k, 0),
        _ => panic!("expected a class to initialize"),
    }
}
