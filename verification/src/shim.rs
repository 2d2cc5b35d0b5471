//! The class whose one method starts the machine: it makes the launcher object of the class
//! library, which sets up the system class loader, before the main class runs.

use std::collections::HashMap;

use vstd::prelude::*;

use crate::class_file::CodeModel;
use crate::class_file::Code;
use crate::java::MethodType;
use crate::method_area::{Class, ClassFlags, ClassModel, Method, MethodInfo, void_method};
use crate::method_area::const_pool::{ClassKey, Const, ConstPool, MethodKey, RuntimeConst, SymbolicReference};

verus! {

broadcast use vstd::std_specs::hash::group_hash_axioms;

/// The code of the start method: `new` the launcher, `dup` it, and call its constructor.
pub open spec fn main_thread_code() -> Seq<u8> {
    seq![0xBB, 0, 1, 0x59, 0xB7, 0, 2]
}

/// The class that starts the machine: a static method `<main-thread>()V` whose code builds
/// a `sun.misc.Launcher`, with the launcher class at 1 of its constant pool and the
/// launcher's constructor at 2.
pub open spec fn main_thread_class() -> ClassModel {
    ClassModel {
        name: "<main-thread>"@,
        flags: 0,
        const_pool: Map::empty().insert(1u16, RuntimeConst::Class("sun.misc.Launcher"@)).insert(
            2u16,
            RuntimeConst::Method("sun.misc.Launcher"@, "<init>"@, void_method()),
        ),
        super_class: None,
        instance_fields: Seq::empty(),
        static_fields: Seq::empty(),
        methods: seq![
            MethodInfo {
                class: 0,
                is_static: true,
                is_native: false,
                is_synchronized: false,
                name: "<main-thread>"@,
                descriptor: void_method(),
                code: Some(
                    CodeModel {
                        max_stack: 0,
                        max_locals: 0,
                        code: main_thread_code(),
                        ex_table: Seq::empty(),
                        attributes: Seq::empty(),
                    },
                ),
            },
        ],
        instance_width: 0,
        static_width: 0,
        source_file: None,
    }
}

/// The type `()V`.
fn void_method_type() -> (t: MethodType)
    ensures
        t@ == void_method(),
{
    let t = MethodType { parameters: Vec::new(), return_type: None };
    proof {
        assert(t@.parameters =~= Seq::<crate::java::field_type::TypeModel>::empty());
    }
    t
}

/// The class that starts the machine.
pub fn create_main_thread() -> (class: Class)
    ensures
        class@ == main_thread_class(),
{
    let mut pool: HashMap<u16, Const> = HashMap::new();
    pool.insert(
        1,
        Const::Class(SymbolicReference::new(ClassKey { name: String::from_str("sun.misc.Launcher") })),
    );
    pool.insert(
        2,
        Const::Method(
            SymbolicReference::new(
                MethodKey {
                    class: String::from_str("sun.misc.Launcher"),
                    name: String::from_str("<init>"),
                    descriptor: void_method_type(),
                },
            ),
        ),
    );
    let code = Code {
        max_stack: 0,
        max_locals: 0,
        code: vec![0xBB, 0, 1, 0x59, 0xB7, 0, 2],
        ex_table: Vec::new(),
        attributes: Vec::new(),
    };
    let method = Method {
        class: 0,
        is_static: true,
        is_native: false,
        is_synchronized: false,
        name: String::from_str("<main-thread>"),
        descriptor: void_method_type(),
        code: Some(code),
    };
    let mut methods: Vec<Method> = Vec::new();
    methods.push(method);
    let class = Class {
        name: String::from_str("<main-thread>"),
        flags: ClassFlags { bits: 0 },
        const_pool: ConstPool { pool },
        super_class: None,
        interfaces: Vec::new(),
        instance_fields: Vec::new(),
        static_fields: Vec::new(),
        methods,
        attributes: Vec::new(),
        instance_width: 0,
        static_width: 0,
        source_file: None,
    };
    proof {
        let m = main_thread_class();
        assert(class@.const_pool =~= m.const_pool);
        assert(class@.instance_fields =~= m.instance_fields);
        assert(class@.static_fields =~= m.static_fields);
        assert(class@.methods[0].code->Some_0.code =~= main_thread_code());
        assert(class@.methods[0].code->Some_0.ex_table =~= Seq::<crate::class_file::ExHandler>::empty());
        assert(class@.methods[0].code->Some_0.attributes =~= Seq::<crate::class_file::CodeAttributeModel>::empty());
        assert(class@.methods =~= m.methods);
    }
    class
}

} // verus!
