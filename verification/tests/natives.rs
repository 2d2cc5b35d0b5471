use std::collections::HashMap;

use robusta::class_file::const_pool::{Class, Const, MethodRef, NameAndType, Utf8};
use robusta::class_file::{ClassFile, Code, Field, Method, MethodAttribute};
use robusta::heap::Heaped;
use robusta::instruction::invoke::{complete_native, invoke_special};
use robusta::java::{Double, Float, Int, Long, Reference, Value};
use robusta::native::lang::{
    double_to_long_bits, float_to_int_bits, int_to_text, integer_to_string, long_bits_to_double,
};
use robusta::method_area::const_pool::Const as RuntimeConst;
use robusta::native::trace::{fill_in_stack_trace, make_trace_class, stack_elems, StackElem, TraceFault};
use robusta::native::{Native, NativeMethods};
use robusta::runtime::{Need, Runtime};
use robusta::thread::{Frame, Thread};

fn utf8(s: &str) -> Const {
    Const::Utf8(Utf8 { bytes: s.as_bytes().to_vec() })
}

/// `java.lang.String` with its one field `value: char[]`.
fn string_file() -> ClassFile {
    let mut pool = HashMap::new();
    pool.insert(1, utf8("java/lang/String"));
    pool.insert(2, Const::Class(Class { name: 1 }));
    pool.insert(3, utf8("value"));
    pool.insert(4, utf8("[C"));
    ClassFile {
        magic: 0xCAFEBABE,
        minor_version: 0,
        major_version: 52,
        const_pool: pool,
        access_flags: 0x21,
        this_class: 2,
        super_class: 0,
        fields: vec![Field { access_flags: 0, name: 3, descriptor: 4 }],
        methods: vec![],
        attributes: vec![],
    }
}

/// A class `Calc` with a method `add(II)I` that has code and a native `sub(II)I`, and method
/// references to both.
fn calc_file() -> ClassFile {
    let mut pool = HashMap::new();
    pool.insert(1, utf8("Calc"));
    pool.insert(2, Const::Class(Class { name: 1 }));
    pool.insert(3, utf8("add"));
    pool.insert(4, utf8("(II)I"));
    pool.insert(5, Const::NameAndType(NameAndType { name: 3, descriptor: 4 }));
    pool.insert(6, Const::MethodRef(MethodRef { class: 2, name_and_type: 5 }));
    pool.insert(7, utf8("sub"));
    pool.insert(8, Const::NameAndType(NameAndType { name: 7, descriptor: 4 }));
    pool.insert(9, Const::MethodRef(MethodRef { class: 2, name_and_type: 8 }));
    let code = Code {
        max_stack: 2,
        max_locals: 4,
        code: vec![0x1B, 0x1C, 0x60, 0xAC],
        ex_table: vec![],
        attributes: vec![],
    };
    ClassFile {
        magic: 0xCAFEBABE,
        minor_version: 0,
        major_version: 52,
        const_pool: pool,
        access_flags: 0x21,
        this_class: 2,
        super_class: 0,
        fields: vec![],
        methods: vec![
            Method { access_flags: 0x0001, name: 3, descriptor: 4, attributes: vec![MethodAttribute::Code(code)] },
            Method { access_flags: 0x0101, name: 7, descriptor: 4, attributes: vec![] },
        ],
        attributes: vec![],
    }
}

#[test]
fn float_bits_round_trip() {
    let bits = 1.5f32.to_bits();
    let res = float_to_int_bits(&vec![Value::Float(Float(bits))]);
    assert!(matches!(res, Some(Value::Int(Int(i))) if i == bits as i32));

    let dbits = (-2.25f64).to_bits();
    let long = double_to_long_bits(&vec![Value::Double(Double(dbits))]);
    assert!(matches!(long, Some(Value::Long(Long(l))) if l == dbits as i64));
    let back = long_bits_to_double(&vec![long.unwrap()]);
    assert!(matches!(back, Some(Value::Double(Double(d))) if f64::from_bits(d) == -2.25));
}

#[test]
fn int_text_of_numbers() {
    assert_eq!(int_to_text(0), "0");
    assert_eq!(int_to_text(7), "7");
    assert_eq!(int_to_text(-42), "-42");
    assert_eq!(int_to_text(1234567890), "1234567890");
    assert_eq!(int_to_text(i32::MIN), "-2147483648");
    assert_eq!(int_to_text(i32::MAX), "2147483647");
}

#[test]
fn integer_to_string_needs_the_string_class() {
    let mut rt = Runtime::new();
    match integer_to_string(&mut rt, &vec![Value::Int(Int(5))]) {
        Err(Need::Class(name)) => assert_eq!(name, "java.lang.String"),
        _ => panic!("expected java.lang.String to be asked for"),
    }
    assert_eq!(rt.heap().len(), 0);
}

#[test]
fn integer_to_string_interns_its_text() {
    let mut rt = Runtime::new();
    rt.load_class_file("java.lang.String".to_string(), &string_file(), None).unwrap();
    let first = match integer_to_string(&mut rt, &vec![Value::Int(Int(-42))]) {
        Ok(Some(Value::Reference(r))) => r,
        _ => panic!("expected a string"),
    };
    let chars = match rt.heap().get(first) {
        Heaped::Object(o) => match o.get_field(0) {
            Value::Reference(r) => r,
            _ => panic!("expected the char array"),
        },
        _ => panic!("expected a string object"),
    };
    match rt.heap().get(chars) {
        Heaped::Array(a) => {
            assert_eq!(a.length(), Int(3));
            assert!(matches!(a.get_element(Int(0)), Value::Int(Int(c)) if c == '-' as i32));
            assert!(matches!(a.get_element(Int(2)), Value::Int(Int(c)) if c == '2' as i32));
        }
        _ => panic!("expected a char array"),
    }
    let heap_len = rt.heap().len();
    // The same text is interned once.
    let again = integer_to_string(&mut rt, &vec![Value::Int(Int(-42))]);
    assert!(matches!(again, Ok(Some(Value::Reference(r))) if r == first));
    assert_eq!(rt.heap().len(), heap_len);
}

#[test]
fn natives_are_found_by_class_name_and_descriptor() {
    let natives = NativeMethods::new();
    let find = |c: &str, n: &str, d: &str| natives.find(&c.to_string(), &n.to_string(), &d.to_string());
    assert_eq!(find("com.jkitch.robusta.Robusta", "println", "(I)V"), Some(Native::RobustaPrintlnInt));
    assert_eq!(
        find("com.jkitch.robusta.Robusta", "println", "(Ljava/lang/String;)V"),
        Some(Native::RobustaPrintlnString)
    );
    assert_eq!(find("java.lang.Float", "floatToRawIntBits", "(F)I"), Some(Native::FloatToIntBits));
    assert_eq!(find("java.lang.Float", "floatToRawIntBits", "(D)I"), None);
    assert_eq!(find("java.lang.Nothing", "println", "(I)V"), None);
}

fn calc_runtime() -> (Runtime, Reference) {
    let mut rt = Runtime::new();
    rt.load_class_file("Calc".to_string(), &calc_file(), None).unwrap();
    rt.method_area.mark_initialized(0);
    let obj = rt.new_instance(0);
    (rt, obj)
}

fn calling(index: u8, obj: Reference) -> Thread {
    let mut thread = Thread::new(None);
    let mut frame = Frame::new(vec![0, index], 1, 0, 0);
    frame.operand_stack.push(Value::Reference(obj));
    frame.operand_stack.push(Value::Int(Int(3)));
    frame.operand_stack.push(Value::Int(Int(4)));
    thread.push_frame(frame);
    thread
}

#[test]
fn invoke_special_pushes_a_frame_with_the_arguments() {
    let (rt, obj) = calc_runtime();
    let mut thread = calling(6, obj);
    assert!(matches!(invoke_special(&mut thread, &rt), Ok(None)));
    assert_eq!(thread.depth(), 2);
    assert_eq!(thread.frame(0).pc, 2);
    assert_eq!(thread.frame(0).operand_stack.len(), 0);
    let callee = thread.frame(1);
    assert_eq!(callee.pc, 0);
    assert_eq!(callee.code, vec![0x1B, 0x1C, 0x60, 0xAC]);
    assert_eq!(callee.local_vars.len(), 4);
    assert!(matches!(callee.local_vars.get(0), Value::Reference(r) if r == obj));
    assert!(matches!(callee.local_vars.get(1), Value::Int(Int(3))));
    assert!(matches!(callee.local_vars.get(2), Value::Int(Int(4))));
    assert!(matches!(callee.local_vars.get(3), Value::Int(Int(0))));
}

#[test]
fn invoke_special_hands_back_a_native_call() {
    let (rt, obj) = calc_runtime();
    let mut thread = calling(9, obj);
    let call = match invoke_special(&mut thread, &rt) {
        Ok(Some(call)) => call,
        _ => panic!("expected a native call"),
    };
    assert_eq!((call.class, call.method), (0, 1));
    assert_eq!(call.args.len(), 3);
    assert!(matches!(call.args[0], Value::Reference(r) if r == obj));
    assert!(matches!(call.args[2], Value::Int(Int(4))));
    assert_eq!(thread.depth(), 1);
    complete_native(&mut thread, Some(Value::Int(Int(-1))));
    assert!(matches!(thread.frame(0).operand_stack.peek(0), Value::Int(Int(-1))));
}

#[test]
fn invoke_special_reports_an_uninitialized_class() {
    let mut rt = Runtime::new();
    rt.load_class_file("Calc".to_string(), &calc_file(), None).unwrap();
    let obj = rt.new_instance(0);
    let mut thread = calling(6, obj);
    assert!(matches!(invoke_special(&mut thread, &rt), Err(Need::Initialization(0))));
    assert_eq!(thread.frame(0).operand_stack.len(), 3);
}

#[test]
fn trace_class_code_and_constants() {
    let elems = vec![
        StackElem { class: "A".to_string(), method: "<init>".to_string(), file: Some("A.java".to_string()), line: 7 },
        StackElem { class: "B".to_string(), method: "<init>".to_string(), file: None, line: -2 },
    ];
    let class = make_trace_class("<trace>".to_string(), &elems);
    assert_eq!(class.name, "<trace>");
    assert_eq!(class.methods.len(), 1);
    let method = &class.methods[0];
    assert_eq!(method.name, "<fill-in-stack-trace>");
    assert!(method.is_static);
    let code = &method.code.as_ref().unwrap().code;
    let expected: Vec<u8> = vec![
        0x13, 0, 3, 0xBD, 0, 1, 0x4B,
        // A: class 4, method 5, file 6, line 7
        0xBB, 0, 1, 0x59, 0x13, 0, 4, 0x13, 0, 5, 0x13, 0, 6, 0x13, 0, 7, 0xB7, 0, 2,
        // B: class 8, method 9, no file, line 10
        0xBB, 0, 1, 0x59, 0x13, 0, 8, 0x13, 0, 9, 0x01, 0x13, 0, 10, 0xB7, 0, 2,
        0x03, 0x3C,
        0x4D, 0x2A, 0x1B, 0x2C, 0x53, 0x84, 1, 1,
        0x4D, 0x2A, 0x1B, 0x2C, 0x53, 0x84, 1, 1,
        0x2A, 0xB0,
    ];
    assert_eq!(code, &expected);
    let pool = &class.const_pool.pool;
    assert_eq!(pool.len(), 10);
    assert!(matches!(pool.get(&3), Some(RuntimeConst::Integer(2))));
    assert!(matches!(pool.get(&7), Some(RuntimeConst::Integer(7))));
    assert!(matches!(pool.get(&10), Some(RuntimeConst::Integer(-2))));
    match pool.get(&6) {
        Some(RuntimeConst::String(s)) => assert_eq!(s.const_key, "A.java"),
        _ => panic!("expected the file name"),
    }
    match pool.get(&8) {
        Some(RuntimeConst::String(s)) => assert_eq!(s.const_key, "B"),
        _ => panic!("expected the class name"),
    }
}

#[test]
fn fill_in_stack_trace_needs_throwable() {
    let mut rt = Runtime::new();
    let thread = Thread::new(None);
    match fill_in_stack_trace(&thread, &mut rt, "<trace>".to_string()) {
        Err(TraceFault::Need(Need::Class(name))) => assert_eq!(name, "java.lang.Throwable"),
        _ => panic!("expected java.lang.Throwable to be asked for"),
    }
}

#[test]
fn stack_trace_takes_constructor_frames_from_the_bottom() {
    let mut rt = Runtime::new();
    // Throwable at 0, then a class whose <init> has code with a line table.
    let mut throwable = string_file();
    throwable.const_pool.insert(1, utf8("java/lang/Throwable"));
    throwable.fields.clear();
    rt.load_class_file("java.lang.Throwable".to_string(), &throwable, None).unwrap();
    let mut pool = HashMap::new();
    pool.insert(1, utf8("Maker"));
    pool.insert(2, Const::Class(Class { name: 1 }));
    pool.insert(3, utf8("<init>"));
    pool.insert(4, utf8("()V"));
    pool.insert(5, utf8("run"));
    let code = Code {
        max_stack: 1,
        max_locals: 1,
        code: vec![0xB1, 0xB1, 0xB1],
        ex_table: vec![],
        attributes: vec![robusta::class_file::CodeAttribute::LineNumberTable(robusta::class_file::LineNumberTable {
            table: vec![
                robusta::class_file::LineNumber { start_pc: 0, line_number: 10 },
                robusta::class_file::LineNumber { start_pc: 2, line_number: 11 },
            ],
        })],
    };
    let maker = ClassFile {
        magic: 0xCAFEBABE,
        minor_version: 0,
        major_version: 52,
        const_pool: pool,
        access_flags: 0x21,
        this_class: 2,
        super_class: 0,
        fields: vec![],
        methods: vec![
            Method { access_flags: 0x0001, name: 3, descriptor: 4, attributes: vec![MethodAttribute::Code(code)] },
            Method { access_flags: 0x0009, name: 5, descriptor: 4, attributes: vec![] },
        ],
        attributes: vec![],
    };
    rt.load_class_file("Maker".to_string(), &maker, None).unwrap();
    let mut thread = Thread::new(None);
    let mut bottom = Frame::new(vec![0xB1, 0xB1, 0xB1], 1, 1, 0);
    bottom.pc = 2;
    thread.push_frame(bottom);
    thread.push_frame(Frame::new(vec![0xB1], 1, 1, 0));
    thread.push_frame(Frame::new(vec![], 0, 1, 1));
    let elems = stack_elems(&thread, rt.method_area(), 0).unwrap();
    assert_eq!(elems.len(), 2);
    assert_eq!(elems[0].class, "Maker");
    assert_eq!(elems[0].method, "<init>");
    assert_eq!(elems[0].line, 11);
    assert_eq!(elems[1].line, 10);
    assert_eq!(elems[0].file, None);

    let index = fill_in_stack_trace(&thread, &mut rt, "<trace-1>".to_string()).ok().unwrap();
    assert_eq!(index, 2);
    assert_eq!(rt.method_area().class(2).name, "<trace-1>");
}
