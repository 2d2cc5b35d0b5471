//! The runtime areas shared by the threads of a virtual machine: the method area and the heap,
//! with the strings and class objects the heap holds for them.
//!
//! Work the runtime cannot do by itself is reported as a [`Need`]: loading a class from the
//! class path, or initializing a class. The caller does it and asks again.

use std::collections::{HashMap, HashSet};

use vstd::prelude::*;

use crate::heap::sync::{Entry, LockState, ObjectLock, enter_spec, exit_spec, lock_wf};
use crate::heap::allocator::{Array, ArrayModel, ArrayType, ObjectModel, array_wf, stored, storable};
use crate::heap::garbage_collector::{closed, holds, mark, reachable};
use crate::heap::{Heap, HeapedModel, array_at, heap_wf, is_array, is_object};
use crate::java::field_type::TypeModel;
use crate::java::{FieldType, Int, Reference, Value};
use crate::class_file::ClassFile;
use crate::method_area::layout::{ALIGN, class_loadable, define_class, loaded_class};
use crate::method_area::{
    Class,
    ClassModel,
    MethodArea,
    MethodAreaModel,
    area_wf,
    field_slot,
    find_name,
    instance_slots,
    super_width,
};
use crate::text::str_chars;

verus! {

broadcast use vstd::std_specs::hash::group_hash_axioms;

/// Work the runtime needs done before it can go on.
pub enum Need {
    /// The class of this name must be loaded into the method area.
    Class(String),
    /// The class at this index in the method area must be initialized.
    Initialization(usize),
    /// The monitor of this object must be released by the thread holding it.
    Monitor(Reference),
}

/// The UTF-16 code units of a character.
pub open spec fn utf16_units(c: char) -> Seq<u16> {
    let v = c as u32;
    if v < 0x10000 {
        seq![v as u16]
    } else {
        let u = v - 0x10000;
        seq![(0xD800 + u / 0x400) as u16, (0xDC00 + u % 0x400) as u16]
    }
}

/// The UTF-16 encoding of a string.
pub open spec fn encode_utf16(s: Seq<char>) -> Seq<u16>
    decreases s.len(),
{
    if s.len() == 0 {
        Seq::empty()
    } else {
        encode_utf16(s.drop_last()) + utf16_units(s.last())
    }
}

/// The elements of the char array holding the string `s`.
pub open spec fn string_chars(s: Seq<char>) -> Seq<Value> {
    encode_utf16(s).map_values(|u: u16| Value::Int(Int(u as i32)))
}

/// The type of the `value` field of `java.lang.String`: an array of chars.
pub open spec fn char_array_type() -> TypeModel {
    TypeModel::Array(Box::new(TypeModel::Char))
}

/// The type of the `name` field of `java.lang.Class`: a `java.lang.String`.
pub open spec fn string_type() -> TypeModel {
    TypeModel::Reference("java/lang/String"@)
}

/// The UTF-16 code units the string object `o` holds: its `value` field, found by name and
/// type from its class up, refers to a char array; `None` when it does not.
pub open spec fn string_units(r: RuntimeModel, o: u32) -> Option<Seq<u16>> {
    if !is_object(r.heap, o) || r.heap[o]->Object_0.class >= r.area.classes.len() {
        None
    } else {
        let obj = r.heap[o]->Object_0;
        match field_slot(r.area.classes, obj.class as int, "value"@, char_array_type()) {
            None => None,
            Some(k) => if k < obj.fields.len() && obj.fields[k] is Reference && is_array(
                r.heap,
                obj.fields[k]->Reference_0.0,
            ) && array_at(r.heap, obj.fields[k]->Reference_0.0).component == ArrayType::Char {
                Some(array_at(r.heap, obj.fields[k]->Reference_0.0).elements.map_values(|v: Value| (v->Int_0.0) as u16))
            } else {
                None
            },
        }
    }
}

/// The model of the runtime.
pub struct RuntimeModel {
    pub heap: Map<u32, HeapedModel>,
    pub area: MethodAreaModel,
    /// The interned strings, each with the reference to its `java.lang.String` object.
    pub strings: Seq<(Seq<char>, u32)>,
    /// The class objects made so far, each with the index of its class.
    pub class_objects: Seq<(usize, u32)>,
    /// The objects holding the static fields of classes, each with the index of its class.
    pub statics: Seq<(usize, u32)>,
    /// The locks of the monitors entered so far, by the reference of their object.
    pub monitors: Map<u32, LockState>,
}

/// The index of the first entry for `key` among `entries`, if any.
pub open spec fn lookup<K>(entries: Seq<(K, u32)>, key: K) -> Option<int>
    decreases entries.len(),
{
    if entries.len() == 0 {
        None
    } else {
        match lookup(entries.drop_last(), key) {
            Some(i) => Some(i),
            None => if entries.last().0 == key {
                Some(entries.len() - 1)
            } else {
                None
            },
        }
    }
}

/// Whether the runtime model is consistent, and the classes the runtime builds objects of
/// have the fields it sets, when they are loaded.
pub open spec fn runtime_wf(r: RuntimeModel) -> bool {
    &&& heap_wf(r.heap)
    &&& forall|o: u32| #[trigger] r.monitors.contains_key(o) ==> lock_wf(r.monitors[o])
    &&& area_wf(r.area)
    &&& (find_name(r.area.classes, "java.lang.String"@) matches Some(s) ==> field_slot(
        r.area.classes,
        s,
        "value"@,
        char_array_type(),
    ) is Some)
    &&& (find_name(r.area.classes, "java.lang.Class"@) matches Some(c) ==> field_slot(
        r.area.classes,
        c,
        "name"@,
        string_type(),
    ) is Some)
}


/// Whether the class `c`, loaded after `classes`, has the fields the runtime sets in objects of
/// its name: a `char[]` field `value` for `java.lang.String` and a `String` field `name` for
/// `java.lang.Class`.
pub open spec fn has_runtime_fields(classes: Seq<ClassModel>, c: ClassModel) -> bool {
    &&& (c.name == "java.lang.String"@ ==> field_slot(
        classes.push(c),
        classes.len() as int,
        "value"@,
        char_array_type(),
    ) is Some)
    &&& (c.name == "java.lang.Class"@ ==> field_slot(
        classes.push(c),
        classes.len() as int,
        "name"@,
        string_type(),
    ) is Some)
}

/// `after` is `before` with the object holding the static fields of the class at `class` made
/// at `r`.
pub open spec fn made_static_object(before: RuntimeModel, after: RuntimeModel, class: usize, r: u32) -> bool {
    &&& !before.heap.contains_key(r)
    &&& r != 0
    &&& after == (RuntimeModel {
        heap: before.heap.insert(
            r,
            HeapedModel::Object(ObjectModel { class, fields: static_slots(before.area.classes, class as int) }),
        ),
        statics: before.statics.push((class, r)),
        ..before
    })
}

/// `after` is `before` where the class at `class` has no static field or the object holding
/// them was made already; otherwise `before` with that object made.
pub open spec fn statics_ready(before: RuntimeModel, after: RuntimeModel, class: usize) -> bool {
    if before.area.classes[class as int].static_fields.len() == 0 || lookup(before.statics, class) is Some {
        after == before
    } else {
        exists|r: u32| #[trigger] made_static_object(before, after, class, r)
    }
}


/// The objects the runtime keeps alive whatever the threads refer to: the class objects, the
/// interned strings, and what the objects holding static fields refer to.
pub open spec fn runtime_roots(r: RuntimeModel) -> Set<u32> {
    Set::new(
        |x: u32|
            (exists|i: int| 0 <= i < r.class_objects.len() && (#[trigger] r.class_objects[i]).1 == x)
                || (exists|i: int| 0 <= i < r.strings.len() && (#[trigger] r.strings[i]).1 == x)
                || (exists|i: int|
                0 <= i < r.statics.len() && holds(r.heap[(#[trigger] r.statics[i]).1], x)),
    )
}

/// Whether every object holding static fields is in the heap.
pub open spec fn statics_live(r: RuntimeModel) -> bool {
    forall|i: int| 0 <= i < r.statics.len() ==> is_object(r.heap, (#[trigger] r.statics[i]).1)
}


/// The reference to the object holding the static fields of the class at `class`, if it was
/// made.
pub open spec fn static_ref(r: RuntimeModel, class: usize) -> Option<u32> {
    match lookup(r.statics, class) {
        Some(i) => Some(r.statics[i].1),
        None => None,
    }
}

/// Whether every object holding static fields is in the heap with one slot per static field
/// of its class.
pub open spec fn statics_sound(r: RuntimeModel) -> bool {
    forall|i: int|
        0 <= i < r.statics.len() ==> {
            let (c, o) = #[trigger] r.statics[i];
            &&& c < r.area.classes.len()
            &&& is_object(r.heap, o)
            &&& r.heap[o]->Object_0.fields.len() == r.area.classes[c as int].static_fields.len()
        }
}

/// The runtime of a Java Virtual Machine consists of the method area, the runtime constant pools
/// and the heap.
pub struct Runtime {
    pub heap: Heap,
    pub method_area: MethodArea,
    strings: Vec<(String, Reference)>,
    class_objects: Vec<(usize, Reference)>,
    statics: Vec<(usize, Reference)>,
    monitors: HashMap<u32, ObjectLock>,
}

impl View for Runtime {
    type V = RuntimeModel;

    closed spec fn view(&self) -> RuntimeModel {
        RuntimeModel {
            heap: self.heap@,
            area: self.method_area@,
            strings: self.strings@.map_values(|e: (String, Reference)| (e.0@, e.1.0)),
            class_objects: self.class_objects@.map_values(|e: (usize, Reference)| (e.0, e.1.0)),
            statics: self.statics@.map_values(|e: (usize, Reference)| (e.0, e.1.0)),
            monitors: self.monitors@.map_values(|l: ObjectLock| l@),
        }
    }
}

/// The char array elements for `chars`, encoded in UTF-16.
fn utf16_elements(chars: &Vec<char>) -> (elements: Vec<Value>)
    ensures
        elements@ == string_chars(chars@),
{
    let mut elements: Vec<Value> = Vec::new();
    let mut i: usize = 0;
    while i < chars.len()
        invariant
            i <= chars.len(),
            elements@ == string_chars(chars@.subrange(0, i as int)),
        decreases chars.len() - i,
    {
        let c = chars[i];
        let v = c as u32;
        let ghost before = chars@.subrange(0, i as int);
        proof {
            assert(chars@.subrange(0, i + 1).drop_last() =~= before);
        }
        if v < 0x10000 {
            elements.push(Value::Int(Int(v as i32)));
        } else {
            let u = v - 0x10000;
            elements.push(Value::Int(Int((0xD800 + u / 0x400) as i32)));
            elements.push(Value::Int(Int((0xDC00 + u % 0x400) as i32)));
        }
        proof {
            let after = chars@.subrange(0, i + 1);
            let f = |u: u16| Value::Int(Int(u as i32));
            assert(encode_utf16(after) == encode_utf16(before) + utf16_units(c));
            assert(string_chars(after) =~= string_chars(before) + utf16_units(c).map_values(f));
            assert(v == c as u32);
            if v < 0x10000 {
                assert(utf16_units(c).map_values(f) =~= seq![Value::Int(Int(v as i32))]);
            } else {
                let u = v - 0x10000;
                vstd::utf8::char_is_scalar(c);
                assert(v <= 0x10FFFF);
                assert(u / 0x400 <= 0x3FF && u % 0x400 < 0x400) by (nonlinear_arith)
                    requires
                        u <= 0xFFFFF,
                ;
                assert(utf16_units(c).map_values(f) =~= seq![
                    Value::Int(Int((0xD800 + u / 0x400) as i32)),
                    Value::Int(Int((0xDC00 + u % 0x400) as i32)),
                ]);
            }
            assert(elements@ =~= string_chars(after));
        }
        i += 1;
    }
    proof {
        assert(chars@.subrange(0, i as int) =~= chars@);
    }
    elements
}

impl Runtime {
    /// A runtime with no class loaded and an empty heap.
    pub fn new() -> (rt: Self)
        ensures
            rt@.heap == Map::<u32, HeapedModel>::empty(),
            rt@.area.classes == Seq::<crate::method_area::ClassModel>::empty(),
            rt@.strings == Seq::<(Seq<char>, u32)>::empty(),
            rt@.class_objects == Seq::<(usize, u32)>::empty(),
            rt@.statics == Seq::<(usize, u32)>::empty(),
            rt@.monitors == Map::<u32, LockState>::empty(),
            runtime_wf(rt@),
    {
        let rt = Runtime {
            heap: Heap::new(),
            method_area: MethodArea::new(),
            strings: Vec::new(),
            class_objects: Vec::new(),
            statics: Vec::new(),
            monitors: HashMap::new(),
        };
        proof {
            assert(rt@.strings =~= Seq::<(Seq<char>, u32)>::empty());
            assert(rt@.class_objects =~= Seq::<(usize, u32)>::empty());
            assert(rt@.statics =~= Seq::<(usize, u32)>::empty());
            assert(rt@.monitors =~= Map::<u32, LockState>::empty());
        }
        rt
    }

    /// The interned string `string`: the `java.lang.String` object holding its chars, made the
    /// first time the string is interned; `java.lang.String` must have been loaded for that.
    pub fn intern_string(&mut self, string: &String) -> (res: Result<Reference, Need>)
        requires
            runtime_wf(old(self)@),
            old(self)@.heap.len() + 2 <= u32::MAX,
            string@.len() <= 0x3FFF_FFFF,
        ensures
            runtime_wf(final(self)@),
            final(self)@.heap.len() <= old(self)@.heap.len() + 2,
            match lookup(old(self)@.strings, string@) {
                Some(i) => res == Ok::<Reference, Need>(Reference(old(self)@.strings[i].1))
                    && final(self)@ == old(self)@,
                None => match find_name(old(self)@.area.classes, "java.lang.String"@) {
                    None => res matches Err(Need::Class(name)) && name@ == "java.lang.String"@
                        && final(self)@ == old(self)@,
                    Some(sc) => res matches Ok(r) && interned(old(self)@, final(self)@, string@, sc, r.0),
                },
            },
    {
        match self.find_string(string) {
            Some(r) => return Ok(r),
            None => {},
        }
        let class_name = String::from_str("java.lang.String");
        let string_class = match self.method_area.find_class(&class_name) {
            Some(i) => i,
            None => return Err(Need::Class(class_name)),
        };
        proof {
            crate::method_area::lemma_find_name_bounds(self@.area.classes, "java.lang.String"@);
        }
        let value_name = String::from_str("value");
        let value_type = FieldType::Array(Box::new(FieldType::Char));
        proof {
            reveal_with_fuel(crate::java::field_type::model_of, 2);
            assert(value_type@ == char_array_type());
        }
        let slot = match self.method_area.field_slot(string_class, &value_name, &value_type) {
            Some(k) => k,
            None => unreached(),
        };
        let ghost old_rt = self@;
        proof {
            crate::method_area::lemma_field_slot_bound(
                old_rt.area.classes,
                string_class as int,
                "value"@,
                char_array_type(),
            );
            lemma_string_chars_wf(string@);
        }
        let chars = str_chars(string.as_str());
        let elements = utf16_elements(&chars);
        let array = Array::with_elements(ArrayType::Char, elements);
        let chars_ref = self.heap.insert_array(array);
        let fields = self.method_area.instance_slots(string_class);
        let object_ref = self.heap.new_object(string_class, fields);
        self.heap.set_field(object_ref, slot, Value::Reference(chars_ref));
        self.strings.push((string.clone(), object_ref));
        proof {
            let new_rt = self@;
            let arr = HeapedModel::Array(ArrayModel { component: ArrayType::Char, elements: string_chars(string@) });
            let obj = HeapedModel::Object(ObjectModel {
                class: string_class,
                fields: instance_slots(old_rt.area.classes, string_class as int).update(
                    slot as int,
                    Value::Reference(chars_ref),
                ),
            });
            assert(new_rt.heap =~= old_rt.heap.insert(chars_ref.0, arr).insert(object_ref.0, obj));
            assert(new_rt.strings =~= old_rt.strings.push((string@, object_ref.0)));
            assert(chars_ref.0 != object_ref.0);
            assert(interned(old_rt, new_rt, string@, string_class as int, object_ref.0));
        }
        Ok(object_ref)
    }

    /// The class object of the class at `class`: an object of `java.lang.Class` whose name is
    /// the class's name, made the first time it is asked for; `java.lang.String` and
    /// `java.lang.Class` must have been loaded for that.
    pub fn class_object(&mut self, class: usize) -> (res: Result<Reference, Need>)
        requires
            runtime_wf(old(self)@),
            old(self)@.heap.len() + 3 <= u32::MAX,
            class < old(self)@.area.classes.len(),
            old(self)@.area.classes[class as int].name.len() <= 0x3FFF_FFFF,
        ensures
            runtime_wf(final(self)@),
            match lookup(old(self)@.class_objects, class) {
                Some(i) => res == Ok::<Reference, Need>(Reference(old(self)@.class_objects[i].1))
                    && final(self)@ == old(self)@,
                None => match (
                    find_name(old(self)@.area.classes, "java.lang.String"@),
                    find_name(old(self)@.area.classes, "java.lang.Class"@),
                ) {
                    (None, _) => res matches Err(Need::Class(name)) && name@ == "java.lang.String"@
                        && final(self)@ == old(self)@,
                    (Some(_), None) => res matches Err(Need::Class(name)) && name@ == "java.lang.Class"@
                        && final(self)@ == old(self)@,
                    (Some(sc), Some(cc)) => res matches Ok(r) && made_class_object(
                        old(self)@,
                        final(self)@,
                        class,
                        sc,
                        cc,
                        r.0,
                    ),
                },
            },
    {
        match self.find_class_object(class) {
            Some(r) => return Ok(r),
            None => {},
        }
        let string_name = String::from_str("java.lang.String");
        match self.method_area.find_class(&string_name) {
            Some(_) => {},
            None => return Err(Need::Class(string_name)),
        }
        let class_name = String::from_str("java.lang.Class");
        let class_class = match self.method_area.find_class(&class_name) {
            Some(i) => i,
            None => return Err(Need::Class(class_name)),
        };
        proof {
            crate::method_area::lemma_find_name_bounds(self@.area.classes, "java.lang.Class"@);
        }
        let name_field = String::from_str("name");
        let name_type = FieldType::Reference(String::from_str("java/lang/String"));
        let slot = match self.method_area.field_slot(class_class, &name_field, &name_type) {
            Some(k) => k,
            None => unreached(),
        };
        let ghost old_rt = self@;
        proof {
            crate::method_area::lemma_field_slot_bound(
                old_rt.area.classes,
                class_class as int,
                "name"@,
                string_type(),
            );
        }
        let name = self.method_area.class(class).name.clone();
        let name_ref = match self.intern_string(&name) {
            Ok(r) => r,
            Err(_) => unreached(),
        };
        let ghost mid = self@;
        proof {
            assert(name@ == old_rt.area.classes[class as int].name);
            let sc = find_name(old_rt.area.classes, "java.lang.String"@)->Some_0;
            assert(string_result(old_rt, mid, name@, sc, name_ref.0));
        }
        let fields = self.method_area.instance_slots(class_class);
        let object_ref = self.heap.new_object(class_class, fields);
        self.heap.set_field(object_ref, slot, Value::Reference(name_ref));
        self.class_objects.push((class, object_ref));
        proof {
            let new_rt = self@;
            let obj = HeapedModel::Object(ObjectModel {
                class: class_class,
                fields: instance_slots(old_rt.area.classes, class_class as int).update(
                    slot as int,
                    Value::Reference(name_ref),
                ),
            });
            assert(new_rt.heap =~= mid.heap.insert(object_ref.0, obj));
            assert(new_rt.class_objects =~= old_rt.class_objects.push((class, object_ref.0)));
            assert(new_rt.strings =~= mid.strings);
            assert(made_class_object(old_rt, new_rt, class, find_name(old_rt.area.classes, "java.lang.String"@)->Some_0, class_class as int, object_ref.0));
        }
        Ok(object_ref)
    }

    /// The class object of the class at `class`, if one was made.
    pub fn find_class_object(&self, class: usize) -> (res: Option<Reference>)
        ensures
            match lookup(self@.class_objects, class) {
                Some(i) => res == Some(Reference(self@.class_objects[i].1)),
                None => res is None,
            },
    {
        let ghost entries = self@.class_objects;
        let mut i: usize = 0;
        while i < self.class_objects.len()
            invariant
                i <= self.class_objects.len(),
                entries == self@.class_objects,
                lookup(entries.subrange(0, i as int), class) is None,
            decreases self.class_objects.len() - i,
        {
            proof {
                assert(entries.subrange(0, i + 1).drop_last() =~= entries.subrange(0, i as int));
            }
            if self.class_objects[i].0 == class {
                proof {
                    lemma_lookup_prefix(entries, i as int + 1, class);
                }
                return Some(self.class_objects[i].1);
            }
            i += 1;
        }
        proof {
            assert(entries.subrange(0, i as int) =~= entries);
        }
        None
    }

    /// The heap.
    pub fn heap(&self) -> (h: &Heap)
        ensures
            h@ == self@.heap,
    {
        &self.heap
    }

    /// The heap, to change; the rest of the runtime stays as it is.
    pub fn heap_mut(&mut self) -> (h: &mut Heap)
        ensures
            h@ == old(self)@.heap,
            final(self)@ == (RuntimeModel { heap: final(h)@, ..old(self)@ }),
    {
        &mut self.heap
    }

    /// The method area.
    pub fn method_area(&self) -> (m: &MethodArea)
        ensures
            m@ == self@.area,
    {
        &self.method_area
    }

    /// A new object of the class at `class`, its fields each their type's zero.
    pub fn new_instance(&mut self, class: usize) -> (r: Reference)
        requires
            runtime_wf(old(self)@),
            class < old(self)@.area.classes.len(),
            old(self)@.heap.len() < u32::MAX,
        ensures
            !old(self)@.heap.contains_key(r.0),
            r.0 != 0,
            final(self)@ == (RuntimeModel {
                heap: old(self)@.heap.insert(
                    r.0,
                    HeapedModel::Object(ObjectModel {
                        class,
                        fields: instance_slots(old(self)@.area.classes, class as int),
                    }),
                ),
                ..old(self)@
            }),
            runtime_wf(final(self)@),
    {
        let fields = self.method_area.instance_slots(class);
        self.heap.new_object(class, fields)
    }

    /// A new array of `length` null references.
    pub fn new_reference_array(&mut self, length: Int) -> (r: Reference)
        requires
            runtime_wf(old(self)@),
            length.0 >= 0,
            old(self)@.heap.len() < u32::MAX,
        ensures
            !old(self)@.heap.contains_key(r.0),
            r.0 != 0,
            final(self)@ == (RuntimeModel {
                heap: old(self)@.heap.insert(
                    r.0,
                    HeapedModel::Array(ArrayModel {
                        component: ArrayType::Reference,
                        elements: Seq::new(length.0 as nat, |i: int| Value::Reference(Reference(0))),
                    }),
                ),
                ..old(self)@
            }),
            runtime_wf(final(self)@),
    {
        let r = self.heap.new_array(ArrayType::Reference, length);
        proof {
            assert(Seq::new(length.0 as nat, |i: int| crate::heap::allocator::zero_element(ArrayType::Reference))
                =~= Seq::new(length.0 as nat, |i: int| Value::Reference(Reference(0))));
        }
        r
    }

    /// Enter the monitor of the object at `object` for the thread whose object is `thread`.
    pub fn enter_monitor(&mut self, object: Reference, thread: Reference) -> (entry: Entry)
        requires
            runtime_wf(old(self)@),
            thread.0 != 0,
            lock_of(old(self)@, object.0).holder == thread.0 ==> lock_of(old(self)@, object.0).lock_count < usize::MAX,
        ensures
            runtime_wf(final(self)@),
            entry == enter_spec(lock_of(old(self)@, object.0), thread.0).1,
            final(self)@ == (RuntimeModel {
                monitors: old(self)@.monitors.insert(object.0, enter_spec(lock_of(old(self)@, object.0), thread.0).0),
                ..old(self)@
            }),
    {
        let mut lock = match self.monitors.remove(&object.0) {
            Some(lock) => lock,
            None => ObjectLock::new(),
        };
        let entry = lock.enter_monitor(thread.0);
        self.monitors.insert(object.0, lock);
        proof {
            let s = lock_of(old(self)@, object.0);
            assert(self@.monitors =~= old(self)@.monitors.insert(object.0, enter_spec(s, thread.0).0));
        }
        entry
    }

    /// Leave the monitor of the object at `object`, which the thread whose object is `thread`
    /// holds; returns whether the monitor was released, so that the threads waiting for it are
    /// to be woken.
    pub fn exit_monitor(&mut self, object: Reference, thread: Reference) -> (released: bool)
        requires
            runtime_wf(old(self)@),
            thread.0 != 0,
            lock_of(old(self)@, object.0).holder == thread.0,
        ensures
            runtime_wf(final(self)@),
            released == exit_spec(lock_of(old(self)@, object.0), thread.0).1,
            final(self)@ == (RuntimeModel {
                monitors: old(self)@.monitors.insert(object.0, exit_spec(lock_of(old(self)@, object.0), thread.0).0),
                ..old(self)@
            }),
    {
        let mut lock = match self.monitors.remove(&object.0) {
            Some(lock) => lock,
            None => ObjectLock::new(),
        };
        let released = lock.exit_monitor(thread.0);
        self.monitors.insert(object.0, lock);
        proof {
            let s = lock_of(old(self)@, object.0);
            assert(self@.monitors =~= old(self)@.monitors.insert(object.0, exit_spec(s, thread.0).0));
        }
        released
    }

    /// The state of the monitor of the object at `object`.
    pub fn monitor(&self, object: Reference) -> (state: (u32, usize))
        ensures
            state.0 == lock_of(self@, object.0).holder,
            state.1 == lock_of(self@, object.0).lock_count,
    {
        match self.monitors.get(&object.0) {
            Some(lock) => lock.state(),
            None => (0, 0),
        }
    }


    /// Whether `class`, loaded next, would have the fields the runtime sets in objects of its
    /// name.
    fn has_runtime_fields(&self, class: &Class) -> (b: bool)
        requires
            runtime_wf(self@),
            class@.super_class matches Some(s) ==> s < self@.area.classes.len(),
        ensures
            b == has_runtime_fields(self@.area.classes, class@),
    {
        let ghost classes = self@.area.classes;
        let ghost all = classes.push(class@);
        proof {
            reveal_strlit("java.lang.String");
            reveal_strlit("java.lang.Class");
            assert(all[classes.len() as int] == class@);
        }
        let string_name = String::from_str("java.lang.String");
        let class_name = String::from_str("java.lang.Class");
        let (field_name, field_type) = if class.name == string_name {
            let t = FieldType::Array(Box::new(FieldType::Char));
            proof {
                reveal_with_fuel(crate::java::field_type::model_of, 2);
                assert(t@ == char_array_type());
                assert("java.lang.String"@.len() != "java.lang.Class"@.len());
                assert(class.name@ != "java.lang.Class"@);
            }
            (String::from_str("value"), t)
        } else if class.name == class_name {
            let t = FieldType::Reference(String::from_str("java/lang/String"));
            proof {
                assert(t@ == string_type());
            }
            (String::from_str("name"), t)
        } else {
            return true;
        };
        if MethodArea::declares_field(class, &field_name, &field_type) {
            return true;
        }
        match class.super_class {
            Some(s) => {
                proof {
                    crate::method_area::lemma_field_slot_push(classes, s as int, class@, field_name@, field_type@);
                }
                self.method_area.field_slot(s, &field_name, &field_type).is_some()
            },
            None => false,
        }
    }

    /// Load the class named `name` from `file` into the method area, unless a class of that
    /// name was loaded already, its super class at `super_class` having been loaded before it;
    /// then make the object holding its static fields, if it has some and that object was not
    /// made yet. Returns the index of the class of that name; `None`, changing nothing, when the
    /// new class would lack a field the runtime sets in objects of its name.
    pub fn load_class_file(&mut self, name: String, file: &ClassFile, super_class: Option<usize>) -> (res: Option<usize>)
        requires
            runtime_wf(old(self)@),
            super_class matches Some(s) ==> s < old(self)@.area.classes.len(),
            class_loadable(file@),
            super_width(old(self)@.area.classes, super_class) + 8 * file@.fields.len() + ALIGN <= usize::MAX,
            old(self)@.heap.len() < u32::MAX,
        ensures
            runtime_wf(final(self)@),
            ({
                let classes = old(self)@.area.classes;
                let c = loaded_class(name@, file@, classes.len() as nat as usize, super_class, super_width(classes, super_class));
                match find_name(classes, name@) {
                    Some(i) => res == Some(i as usize) && statics_ready(old(self)@, final(self)@, i as usize),
                    None => if has_runtime_fields(classes, c) {
                        &&& res == Some(classes.len() as usize)
                        &&& statics_ready(
                            RuntimeModel {
                                area: MethodAreaModel {
                                    classes: classes.push(c),
                                    initialized: old(self)@.area.initialized.push(false),
                                },
                                ..old(self)@
                            },
                            final(self)@,
                            classes.len() as usize,
                        )
                    } else {
                        res is None && final(self)@ == old(self)@
                    },
                }
            }),
    {
        let ghost classes = self@.area.classes;
        let index = match self.method_area.find_class(&name) {
            Some(i) => {
                proof {
                    crate::method_area::lemma_find_name_bounds(classes, name@);
                }
                i
            },
            None => {
                let width = match super_class {
                    Some(s) => self.method_area.class(s).instance_width,
                    None => 0,
                };
                let index = self.method_area.len();
                let class = define_class(name, file, index, super_class, width);
                if !self.has_runtime_fields(&class) {
                    return None;
                }
                let ghost c = class@;
                let ghost before = self@;
                let i = self.method_area.insert(class);
                proof {
                    let after = self@;
                    crate::method_area::lemma_find_name_push(classes, c, "java.lang.String"@);
                    crate::method_area::lemma_find_name_push(classes, c, "java.lang.Class"@);
                    if let Some(k) = find_name(classes, "java.lang.String"@) {
                        crate::method_area::lemma_find_name_bounds(classes, "java.lang.String"@);
                        crate::method_area::lemma_field_slot_push(classes, k, c, "value"@, char_array_type());
                    }
                    if let Some(k) = find_name(classes, "java.lang.Class"@) {
                        crate::method_area::lemma_find_name_bounds(classes, "java.lang.Class"@);
                        crate::method_area::lemma_field_slot_push(classes, k, c, "name"@, string_type());
                    }
                    assert(after.area.classes == classes.push(c));
                }
                i
            },
        };
        let ghost mid = self@;
        if self.method_area.class(index).static_fields.len() > 0 {
            let r = self.static_object(index);
            proof {
                if lookup(mid.statics, index) is None {
                    assert(made_static_object(mid, self@, index, r.0));
                }
            }
        }
        Some(index)
    }

    /// Add a class the machine made itself, not initialized, unless a class of its name was
    /// loaded already; returns the index of the class of that name. `None`, changing nothing,
    /// when the class would lack a field the runtime sets in objects of its name.
    pub fn insert_gen_class(&mut self, class: Class) -> (res: Option<usize>)
        requires
            runtime_wf(old(self)@),
            class@.super_class matches Some(s) ==> s < old(self)@.area.classes.len(),
        ensures
            runtime_wf(final(self)@),
            match find_name(old(self)@.area.classes, class@.name) {
                Some(i) => res == Some(i as usize) && final(self)@ == old(self)@,
                None => if has_runtime_fields(old(self)@.area.classes, class@) {
                    &&& res == Some(old(self)@.area.classes.len() as usize)
                    &&& final(self)@ == (RuntimeModel {
                        area: MethodAreaModel {
                            classes: old(self)@.area.classes.push(class@),
                            initialized: old(self)@.area.initialized.push(false),
                        },
                        ..old(self)@
                    })
                } else {
                    res is None && final(self)@ == old(self)@
                },
            },
    {
        let ghost classes = self@.area.classes;
        let ghost c = class@;
        proof {
            crate::method_area::lemma_find_name_bounds(classes, c.name);
        }
        match self.method_area.find_class(&class.name) {
            Some(i) => return Some(i),
            None => {},
        }
        if !self.has_runtime_fields(&class) {
            return None;
        }
        let i = self.method_area.insert(class);
        proof {
            let after = self@;
            crate::method_area::lemma_find_name_push(classes, c, "java.lang.String"@);
            crate::method_area::lemma_find_name_push(classes, c, "java.lang.Class"@);
            if let Some(k) = find_name(classes, "java.lang.String"@) {
                crate::method_area::lemma_find_name_bounds(classes, "java.lang.String"@);
                crate::method_area::lemma_field_slot_push(classes, k, c, "value"@, char_array_type());
            }
            if let Some(k) = find_name(classes, "java.lang.Class"@) {
                crate::method_area::lemma_find_name_bounds(classes, "java.lang.Class"@);
                crate::method_area::lemma_field_slot_push(classes, k, c, "name"@, string_type());
            }
            assert(after.area.classes == classes.push(c));
        }
        Some(i)
    }

    /// The objects the runtime keeps alive whatever the threads refer to.
    pub fn heap_roots(&self) -> (refs: HashSet<u32>)
        requires
            statics_live(self@),
        ensures
            refs@ == runtime_roots(self@),
    {
        let ghost r = self@;
        let mut refs: HashSet<u32> = HashSet::new();
        let mut i: usize = 0;
        while i < self.class_objects.len()
            invariant
                r == self@,
                i <= self.class_objects.len(),
                refs@ == Set::new(|x: u32| exists|j: int| 0 <= j < i && (#[trigger] r.class_objects[j]).1 == x),
            decreases self.class_objects.len() - i,
        {
            refs.insert(self.class_objects[i].1.0);
            proof {
                assert(r.class_objects[i as int].1 == self.class_objects@[i as int].1.0);
                assert(refs@ =~= Set::new(|x: u32| exists|j: int| 0 <= j < i + 1 && (#[trigger] r.class_objects[j]).1 == x));
            }
            i += 1;
        }
        let ghost with_classes = refs@;
        let mut i: usize = 0;
        while i < self.strings.len()
            invariant
                r == self@,
                i <= self.strings.len(),
                refs@ == with_classes + Set::new(|x: u32| exists|j: int| 0 <= j < i && (#[trigger] r.strings[j]).1 == x),
            decreases self.strings.len() - i,
        {
            refs.insert(self.strings[i].1.0);
            proof {
                assert(r.strings[i as int].1 == self.strings@[i as int].1.0);
                assert(refs@ =~= with_classes + Set::new(|x: u32| exists|j: int| 0 <= j < i + 1 && (#[trigger] r.strings[j]).1 == x));
            }
            i += 1;
        }
        let ghost with_strings = refs@;
        let mut i: usize = 0;
        while i < self.statics.len()
            invariant
                r == self@,
                statics_live(r),
                i <= self.statics.len(),
                refs@ == with_strings + Set::new(
                    |x: u32| exists|j: int| 0 <= j < i && holds(r.heap[(#[trigger] r.statics[j]).1], x),
                ),
            decreases self.statics.len() - i,
        {
            let ghost before = refs@;
            let object = self.heap.get_object(self.statics[i].1);
            let ghost o = r.heap[r.statics[i as int].1];
            let n = object.field_count();
            let mut k: usize = 0;
            while k < n
                invariant
                    r == self@,
                    k <= n == object@.fields.len(),
                    o == HeapedModel::Object(object@),
                    refs@ == before + Set::new(
                        |x: u32| exists|f: int| 0 <= f < k && object@.fields[f] == Value::Reference(Reference(x)),
                    ),
                decreases n - k,
            {
                match object.get_field(k) {
                    Value::Reference(x) => {
                        refs.insert(x.0);
                    },
                    _ => {},
                }
                proof {
                    assert(refs@ =~= before + Set::new(
                        |x: u32| exists|f: int| 0 <= f < k + 1 && object@.fields[f] == Value::Reference(Reference(x)),
                    ));
                }
                k += 1;
            }
            proof {
                assert forall|x: u32| holds(o, x) <==> exists|f: int| 0 <= f < n && object@.fields[f] == Value::Reference(Reference(x)) by {
                    if holds(o, x) {
                        let f = choose|f: int| 0 <= f < object@.fields.len() && crate::heap::garbage_collector::refers_to(#[trigger] object@.fields[f], x);
                        assert(object@.fields[f] == Value::Reference(Reference(x)));
                    }
                    if exists|f: int| 0 <= f < n && object@.fields[f] == Value::Reference(Reference(x)) {
                        let f = choose|f: int| 0 <= f < n && object@.fields[f] == Value::Reference(Reference(x));
                        assert(crate::heap::garbage_collector::refers_to(object@.fields[f], x));
                    }
                }
                assert(refs@ =~= with_strings + Set::new(
                    |x: u32| exists|j: int| 0 <= j < i + 1 && holds(r.heap[(#[trigger] r.statics[j]).1], x),
                )) by {
                    assert forall|x: u32| (exists|j: int| 0 <= j < i + 1 && holds(r.heap[(#[trigger] r.statics[j]).1], x))
                        <==> ((exists|j: int| 0 <= j < i && holds(r.heap[(#[trigger] r.statics[j]).1], x)) || holds(o, x)) by {
                        if exists|j: int| 0 <= j < i + 1 && holds(r.heap[(#[trigger] r.statics[j]).1], x) {
                            let j = choose|j: int| 0 <= j < i + 1 && holds(r.heap[(#[trigger] r.statics[j]).1], x);
                            if j == i {
                            } else {
                                assert(0 <= j < i && holds(r.heap[r.statics[j].1], x));
                            }
                        }
                        if holds(o, x) {
                            assert(0 <= i < i + 1 && holds(r.heap[r.statics[i as int].1], x));
                        }
                    }
                }
            }
            i += 1;
        }
        proof {
            assert(refs@ =~= runtime_roots(r));
        }
        refs
    }

    /// Collect the garbage: keep in the heap exactly the objects reachable from what the
    /// threads refer to, `thread_roots`, and from the runtime's own roots.
    pub fn collect_garbage(&mut self, thread_roots: &HashSet<u32>)
        requires
            runtime_wf(old(self)@),
            statics_live(old(self)@),
            closed(old(self)@.heap, thread_roots@ + runtime_roots(old(self)@)),
        ensures
            runtime_wf(final(self)@),
            final(self)@ == (RuntimeModel {
                heap: old(self)@.heap.restrict(
                    reachable(old(self)@.heap, thread_roots@ + runtime_roots(old(self)@)),
                ),
                ..old(self)@
            }),
    {
        let mut roots = self.heap_roots();
        let ghost runtime_part = roots@;
        let ghost mut seen: Seq<u32> = Seq::empty();
        for r in it: thread_roots.iter()
            invariant
                it.seq().unref().to_set() == thread_roots@,
                seen == it.seq().take(it.index() as int).unref(),
                roots@ == runtime_part + seen.to_set(),
                it.index() == it.seq().len() ==> seen.to_set() == thread_roots@,
        {
            roots.insert(*r);
            proof {
                let previous = seen;
                seen = seen.push(*r);
                previous.lemma_push_to_set_commute(*r);
            }
            assert(seen =~= it.seq().take(it.index() + 1).unref());
            assert(roots@ =~= runtime_part + seen.to_set());
            assert(it.seq().take(it.seq().len() as int) =~= it.seq());
        }
        proof {
            assert(roots@ =~= thread_roots@ + runtime_roots(self@));
        }
        let visited = mark(&self.heap, &roots);
        self.heap.retain(&visited);
    }


    /// Set the field in slot `slot` of the object `reference` refers to.
    pub fn set_field(&mut self, reference: Reference, slot: usize, value: Value)
        requires
            runtime_wf(old(self)@),
            is_object(old(self)@.heap, reference.0),
            slot < old(self)@.heap[reference.0]->Object_0.fields.len(),
        ensures
            runtime_wf(final(self)@),
            final(self)@ == (RuntimeModel {
                heap: old(self)@.heap.insert(
                    reference.0,
                    HeapedModel::Object(ObjectModel {
                        fields: old(self)@.heap[reference.0]->Object_0.fields.update(slot as int, value),
                        ..old(self)@.heap[reference.0]->Object_0
                    }),
                ),
                ..old(self)@
            }),
    {
        self.heap.set_field(reference, slot, value);
    }

    /// Whether every object holding static fields is in the heap with one slot per static
    /// field of its class.
    pub fn statics_are_sound(&self) -> (b: bool)
        ensures
            b == statics_sound(self@),
    {
        let ghost r = self@;
        let mut i: usize = 0;
        while i < self.statics.len()
            invariant
                r == self@,
                i <= self.statics.len(),
                r.statics.len() == self.statics.len(),
                forall|j: int|
                    0 <= j < i ==> {
                        let (c, o) = #[trigger] r.statics[j];
                        &&& c < r.area.classes.len()
                        &&& is_object(r.heap, o)
                        &&& r.heap[o]->Object_0.fields.len() == r.area.classes[c as int].static_fields.len()
                    },
            decreases self.statics.len() - i,
        {
            let (c, o) = self.statics[i];
            assert(r.statics[i as int] == (c, o.0));
            if c >= self.method_area.len() || !self.heap.holds_object(o) {
                return false;
            }
            let count = self.heap.get_object(o).field_count();
            if count != self.method_area.class(c).static_fields.len() {
                return false;
            }
            i += 1;
        }
        true
    }

    /// The object holding the static fields of the class at `class`, if it was made.
    pub fn find_static_object(&self, class: usize) -> (res: Option<Reference>)
        ensures
            match lookup(self@.statics, class) {
                Some(i) => res == Some(Reference(self@.statics[i].1)),
                None => res is None,
            },
    {
        let ghost entries = self@.statics;
        let mut i: usize = 0;
        while i < self.statics.len()
            invariant
                i <= self.statics.len(),
                entries == self@.statics,
                lookup(entries.subrange(0, i as int), class) is None,
            decreases self.statics.len() - i,
        {
            proof {
                assert(entries.subrange(0, i + 1).drop_last() =~= entries.subrange(0, i as int));
            }
            if self.statics[i].0 == class {
                proof {
                    lemma_lookup_prefix(entries, i as int + 1, class);
                }
                return Some(self.statics[i].1);
            }
            i += 1;
        }
        proof {
            assert(entries.subrange(0, i as int) =~= entries);
        }
        None
    }

    /// The object holding the static fields of the class at `class`, made the first time it is
    /// asked for, its fields each their type's zero.
    pub fn static_object(&mut self, class: usize) -> (r: Reference)
        requires
            runtime_wf(old(self)@),
            class < old(self)@.area.classes.len(),
            old(self)@.heap.len() < u32::MAX,
        ensures
            runtime_wf(final(self)@),
            static_ref(final(self)@, class) == Some(r.0),
            match lookup(old(self)@.statics, class) {
                Some(i) => r.0 == old(self)@.statics[i].1 && final(self)@ == old(self)@,
                None => {
                    &&& !old(self)@.heap.contains_key(r.0)
                    &&& r.0 != 0
                    &&& final(self)@ == (RuntimeModel {
                        heap: old(self)@.heap.insert(
                            r.0,
                            HeapedModel::Object(ObjectModel { class, fields: static_slots(old(self)@.area.classes, class as int) }),
                        ),
                        statics: old(self)@.statics.push((class, r.0)),
                        ..old(self)@
                    })
                },
            },
    {
        let ghost entries = self@.statics;
        let mut i: usize = 0;
        while i < self.statics.len()
            invariant
                i <= self.statics.len(),
                self@ == old(self)@,
                runtime_wf(old(self)@),
                entries == self@.statics,
                lookup(entries.subrange(0, i as int), class) is None,
            decreases self.statics.len() - i,
        {
            proof {
                assert(entries.subrange(0, i + 1).drop_last() =~= entries.subrange(0, i as int));
            }
            if self.statics[i].0 == class {
                proof {
                    lemma_lookup_prefix(entries, i as int + 1, class);
                }
                return self.statics[i].1;
            }
            i += 1;
        }
        proof {
            assert(entries.subrange(0, i as int) =~= entries);
        }
        let fields = &self.method_area.class(class).static_fields;
        let ghost models = self@.area.classes[class as int].static_fields;
        let mut slots: Vec<Value> = Vec::new();
        let mut k: usize = 0;
        while k < fields.len()
            invariant
                k <= fields.len(),
                models == fields@.map_values(|f: crate::method_area::Field| f@),
                slots@ == models.subrange(0, k as int).map_values(
                    |f: crate::method_area::FieldModel| crate::java::field_type::type_zero_value(f.descriptor),
                ),
            decreases fields.len() - k,
        {
            slots.push(fields[k].descriptor.zero_value());
            proof {
                assert(models.subrange(0, k + 1).map_values(
                    |f: crate::method_area::FieldModel| crate::java::field_type::type_zero_value(f.descriptor),
                ) =~= slots@);
            }
            k += 1;
        }
        proof {
            assert(models.subrange(0, k as int) =~= models);
        }
        let r = self.heap.new_object(class, slots);
        self.statics.push((class, r));
        proof {
            assert(self@.statics =~= old(self)@.statics.push((class, r.0)));
            assert(self@.statics.drop_last() =~= old(self)@.statics);
        }
        r
    }

    /// The text of the string object `reference` refers to: the chars of its `value` array,
    /// decoded from UTF-16; `None` when it has no such array or the chars are not valid UTF-16.
    pub fn get_string(&self, reference: Reference) -> (res: Option<String>)
        requires
            runtime_wf(self@),
        ensures
            match string_units(self@, reference.0) {
                None => res is None,
                Some(u) => match res {
                    Some(s) => encode_utf16(s@) == u,
                    None => forall|s: Seq<char>| encode_utf16(s) != u,
                },
            },
    {
        let ghost r = self@;
        if !self.heap.holds_object(reference) {
            return None;
        }
        let object = self.heap.get_object(reference);
        let class = object.class();
        if class >= self.method_area.len() {
            return None;
        }
        let name = String::from_str("value");
        let descriptor = FieldType::Array(Box::new(FieldType::Char));
        proof {
            reveal_strlit("value");
            reveal_with_fuel(crate::java::field_type::model_of, 2);
            assert(descriptor@ == char_array_type());
        }
        let slot = match self.method_area.field_slot(class, &name, &descriptor) {
            Some(k) => k,
            None => return None,
        };
        if slot >= object.field_count() {
            return None;
        }
        let chars = match object.get_field(slot) {
            Value::Reference(a) => a,
            _ => return None,
        };
        if !self.heap.holds_array(chars) {
            return None;
        }
        let array = self.heap.get_array(chars);
        match array.component() {
            ArrayType::Char => {},
            _ => return None,
        }
        let ghost elements = array_at(r.heap, chars.0).elements;
        assert(r.heap.contains_key(chars.0));
        assert(array_wf(array@));
        let n = array.length().0;
        let mut units: Vec<u16> = Vec::new();
        let mut i: i32 = 0;
        while i < n
            invariant
                0 <= i <= n,
                n == elements.len(),
                array@.elements == elements,
                array_wf(array@),
                array@.component == ArrayType::Char,
                units@ == elements.subrange(0, i as int).map_values(|v: Value| (v->Int_0.0) as u16),
            decreases n - i,
        {
            let v = array.get_element(Int(i));
            assert(storable(ArrayType::Char, elements[i as int]));
            let unit = match v {
                Value::Int(Int(x)) => x as u16,
                _ => 0,
            };
            units.push(unit);
            proof {
                assert(elements.subrange(0, i + 1).map_values(|v: Value| (v->Int_0.0) as u16) =~= units@);
            }
            i += 1;
        }
        proof {
            assert(elements.subrange(0, n as int) =~= elements);
        }
        crate::text::string_from_utf16(units.as_slice())
    }

    /// The reference to the interned string `string`, if it was interned.
    pub fn find_string(&self, string: &String) -> (res: Option<Reference>)
        ensures
            match lookup(self@.strings, string@) {
                Some(i) => res == Some(Reference(self@.strings[i].1)),
                None => res is None,
            },
    {
        let ghost entries = self@.strings;
        let mut i: usize = 0;
        while i < self.strings.len()
            invariant
                i <= self.strings.len(),
                entries == self@.strings,
                lookup(entries.subrange(0, i as int), string@) is None,
            decreases self.strings.len() - i,
        {
            proof {
                assert(entries.subrange(0, i + 1).drop_last() =~= entries.subrange(0, i as int));
            }
            if self.strings[i].0 == *string {
                proof {
                    lemma_lookup_prefix(entries, i as int + 1, string@);
                }
                return Some(self.strings[i].1);
            }
            i += 1;
        }
        proof {
            assert(entries.subrange(0, i as int) =~= entries);
        }
        None
    }
}

/// The runtime after interning the string `s` as the object at `r`, its chars in a new array
/// at another reference, with `string_class` the index of `java.lang.String`.
pub open spec fn interned(old: RuntimeModel, new: RuntimeModel, s: Seq<char>, string_class: int, r: u32) -> bool {
    exists|a: u32| {
        &&& a != r
        &&& !old.heap.contains_key(a)
        &&& a != 0
        &&& !old.heap.contains_key(r)
        &&& r != 0
        &&& new.heap == old.heap.insert(
            a,
            HeapedModel::Array(ArrayModel { component: ArrayType::Char, elements: string_chars(s) }),
        ).insert(
            r,
            HeapedModel::Object(ObjectModel {
                class: string_class as usize,
                fields: instance_slots(old.area.classes, string_class).update(
                    field_slot(old.area.classes, string_class, "value"@, char_array_type())->Some_0,
                    Value::Reference(Reference(a)),
                ),
            }),
        )
        &&& new.area == old.area
        &&& new.class_objects == old.class_objects
        &&& new.strings == old.strings.push((s, r))
        &&& new.statics == old.statics
        &&& new.monitors == old.monitors
    }
}

/// The runtime after interning the string `s`: the string's object is `r`, found among the
/// strings already interned or made anew.
pub open spec fn string_result(old: RuntimeModel, new: RuntimeModel, s: Seq<char>, string_class: int, r: u32) -> bool {
    match lookup(old.strings, s) {
        Some(i) => r == old.strings[i].1 && new == old,
        None => interned(old, new, s, string_class, r),
    }
}

/// The runtime after making the class object `r` of the class at `class`, with `class_class`
/// the index of `java.lang.Class` and `string_class` that of `java.lang.String`.
pub open spec fn made_class_object(
    old: RuntimeModel,
    new: RuntimeModel,
    class: usize,
    string_class: int,
    class_class: int,
    r: u32,
) -> bool {
    exists|mid: RuntimeModel, name: u32| {
        &&& string_result(old, mid, old.area.classes[class as int].name, string_class, name)
        &&& !mid.heap.contains_key(r)
        &&& r != 0
        &&& new.heap == mid.heap.insert(
            r,
            HeapedModel::Object(ObjectModel {
                class: class_class as usize,
                fields: instance_slots(old.area.classes, class_class).update(
                    field_slot(old.area.classes, class_class, "name"@, string_type())->Some_0,
                    Value::Reference(Reference(name)),
                ),
            }),
        )
        &&& new.area == old.area
        &&& new.strings == mid.strings
        &&& new.class_objects == old.class_objects.push((class, r))
        &&& new.statics == old.statics
        &&& new.monitors == old.monitors
    }
}

/// The state of the monitor of the object at `o`: free when it was never entered.
pub open spec fn lock_of(r: RuntimeModel, o: u32) -> LockState {
    if r.monitors.contains_key(o) {
        r.monitors[o]
    } else {
        LockState { holder: 0, lock_count: 0, waiting: 0 }
    }
}

/// The values the static fields of the class at `c` start with, each its type's zero.
pub open spec fn static_slots(classes: Seq<crate::method_area::ClassModel>, c: int) -> Seq<Value> {
    classes[c].static_fields.map_values(|f: crate::method_area::FieldModel| crate::java::field_type::type_zero_value(f.descriptor))
}

/// The UTF-16 encoding of a string has at most two units per character.
pub proof fn lemma_utf16_len(s: Seq<char>)
    ensures
        encode_utf16(s).len() <= 2 * s.len(),
    decreases s.len(),
{
    if s.len() > 0 {
        lemma_utf16_len(s.drop_last());
    }
}

/// A string interned reads back as its UTF-16 code units, which only that string encodes to.
pub proof fn law_interned_reads_back(old: RuntimeModel, new: RuntimeModel, s: Seq<char>, string_class: int, r: u32)
    requires
        runtime_wf(old),
        old.area.classes.len() <= usize::MAX,
        find_name(old.area.classes, "java.lang.String"@) == Some(string_class),
        interned(old, new, s, string_class, r),
    ensures
        string_units(new, r) == Some(encode_utf16(s)),
{
    let classes = old.area.classes;
    crate::method_area::lemma_find_name_bounds(classes, "java.lang.String"@);
    let k = field_slot(classes, string_class, "value"@, char_array_type())->Some_0;
    crate::method_area::lemma_field_slot_bound(classes, string_class, "value"@, char_array_type());
    let a = choose|a: u32| {
        &&& a != r
        &&& !old.heap.contains_key(a)
        &&& a != 0
        &&& !old.heap.contains_key(r)
        &&& r != 0
        &&& new.heap == old.heap.insert(
            a,
            HeapedModel::Array(ArrayModel { component: ArrayType::Char, elements: string_chars(s) }),
        ).insert(
            r,
            HeapedModel::Object(ObjectModel {
                class: string_class as usize,
                fields: instance_slots(old.area.classes, string_class).update(
                    field_slot(old.area.classes, string_class, "value"@, char_array_type())->Some_0,
                    Value::Reference(Reference(a)),
                ),
            }),
        )
        &&& new.area == old.area
        &&& new.class_objects == old.class_objects
        &&& new.strings == old.strings.push((s, r))
        &&& new.statics == old.statics
        &&& new.monitors == old.monitors
    };
    let obj = new.heap[r]->Object_0;
    assert(is_object(new.heap, r));
    assert(obj.class as int == string_class);
    assert(new.area.classes == classes);
    assert(field_slot(new.area.classes, obj.class as int, "value"@, char_array_type()) == Some(k));
    assert(obj.fields.len() == instance_slots(classes, string_class).len());
    assert(k < obj.fields.len());
    assert(obj.fields[k] == Value::Reference(Reference(a)));
    assert(new.heap[a] == HeapedModel::Array(ArrayModel { component: ArrayType::Char, elements: string_chars(s) }));
    assert(is_array(new.heap, a));
    let units = array_at(new.heap, a).elements.map_values(|v: Value| (v->Int_0.0) as u16);
    assert forall|i: int| 0 <= i < units.len() implies units[i] == encode_utf16(s)[i] by {
        let u = encode_utf16(s)[i];
        assert(units[i] == ((u as i32) as u16));
        assert((u as i32) as u16 == u) by (bit_vector);
    }
    assert(units =~= encode_utf16(s));
}

/// Every character takes at least one UTF-16 code unit.
proof fn lemma_utf16_min_len(s: Seq<char>)
    ensures
        encode_utf16(s).len() >= s.len(),
    decreases s.len(),
{
    if s.len() > 0 {
        lemma_utf16_min_len(s.drop_last());
    }
}

/// The code units of a character end in a low surrogate exactly when there are two of them.
proof fn lemma_units_end(c: char)
    ensures
        utf16_units(c).len() == 1 || utf16_units(c).len() == 2,
        (utf16_units(c).len() == 2) == (0xDC00 <= utf16_units(c).last() <= 0xDFFF),
{
    let v = c as u32;
    assert(v <= 0xD7FF || (0xE000 <= v <= 0x10FFFF));
    if v >= 0x10000 {
        let u = v - 0x10000;
        assert(u % 0x400 < 0x400);
        assert(0xDC00 + u % 0x400 <= 0xDFFF);
    }
}

/// Two characters with the same code units are the same character.
proof fn lemma_units_injective(a: char, b: char)
    requires
        utf16_units(a) == utf16_units(b),
    ensures
        a == b,
{
    let va = a as u32;
    let vb = b as u32;
    if va < 0x10000 && vb < 0x10000 {
        assert(utf16_units(a) =~= seq![va as u16]);
        assert(utf16_units(b) =~= seq![vb as u16]);
        assert(utf16_units(a)[0] == va as u16);
        assert(utf16_units(b)[0] == vb as u16);
        assert(va as u16 == vb as u16);
        assert(va == vb) by (bit_vector)
            requires
                va < 0x10000,
                vb < 0x10000,
                va as u16 == vb as u16,
        ;
    } else if va >= 0x10000 && vb >= 0x10000 {
        let ua = va - 0x10000;
        let ub = vb - 0x10000;
        assert(utf16_units(a)[0] == utf16_units(b)[0]);
        assert(utf16_units(a)[1] == utf16_units(b)[1]);
        assert(ua / 0x400 == ub / 0x400);
        assert(ua % 0x400 == ub % 0x400);
        assert(ua == 0x400 * (ua / 0x400) + ua % 0x400);
        assert(ub == 0x400 * (ub / 0x400) + ub % 0x400);
    } else {
        assert(utf16_units(a).len() == utf16_units(b).len());
    }
    assert(va == vb);
}

/// Different strings have different UTF-16 encodings.
pub proof fn law_utf16_injective(a: Seq<char>, b: Seq<char>)
    requires
        encode_utf16(a) == encode_utf16(b),
    ensures
        a == b,
    decreases a.len() + b.len(),
{
    lemma_utf16_min_len(a);
    lemma_utf16_min_len(b);
    if a.len() == 0 || b.len() == 0 {
        assert(a.len() == 0 && b.len() == 0);
        assert(a =~= b);
    } else {
        let ea = encode_utf16(a.drop_last());
        let eb = encode_utf16(b.drop_last());
        let ua = utf16_units(a.last());
        let ub = utf16_units(b.last());
        lemma_units_end(a.last());
        lemma_units_end(b.last());
        let e = encode_utf16(a);
        assert(e == ea + ua);
        assert(e == eb + ub);
        assert(e.last() == ua.last());
        assert(e.last() == ub.last());
        assert(ua.len() == ub.len());
        assert(ua =~= e.subrange(e.len() - ua.len(), e.len() as int));
        assert(ub =~= e.subrange(e.len() - ub.len(), e.len() as int));
        assert(ea =~= e.subrange(0, e.len() - ua.len()));
        assert(eb =~= e.subrange(0, e.len() - ub.len()));
        lemma_units_injective(a.last(), b.last());
        law_utf16_injective(a.drop_last(), b.drop_last());
        assert(a =~= a.drop_last().push(a.last()));
        assert(b =~= b.drop_last().push(b.last()));
    }
}

/// The chars of a string not too long make an array.
proof fn lemma_string_chars_wf(s: Seq<char>)
    requires
        s.len() <= 0x3FFF_FFFF,
    ensures
        array_wf(ArrayModel { component: ArrayType::Char, elements: string_chars(s) }),
{
    lemma_utf16_len(s);
    let e = string_chars(s);
    assert forall|i: int| 0 <= i < e.len() implies (#[trigger] e[i]) == stored(ArrayType::Char, e[i])
        && storable(ArrayType::Char, e[i]) by {
        let u = encode_utf16(s)[i];
        assert(e[i] == Value::Int(Int(u as i32)));
    }
}

/// The first entry for a key in a prefix that ends with an entry for it is that one, unless one
/// stands earlier.
proof fn lemma_lookup_prefix<K>(entries: Seq<(K, u32)>, n: int, key: K)
    requires
        0 < n <= entries.len(),
        entries[n - 1].0 == key,
        lookup(entries.subrange(0, n - 1), key) is None,
    ensures
        lookup(entries, key) == Some(n - 1),
    decreases entries.len() - n,
{
    assert(entries.subrange(0, n).drop_last() =~= entries.subrange(0, n - 1));
    if n < entries.len() {
        lemma_lookup_extends(entries, n, key);
    } else {
        assert(entries.subrange(0, n) =~= entries);
    }
}

/// Once a prefix holds an entry for a key, longer prefixes find the same one first.
proof fn lemma_lookup_extends<K>(entries: Seq<(K, u32)>, n: int, key: K)
    requires
        0 < n <= entries.len(),
        lookup(entries.subrange(0, n), key) is Some,
    ensures
        lookup(entries, key) == lookup(entries.subrange(0, n), key),
    decreases entries.len() - n,
{
    if n < entries.len() {
        assert(entries.subrange(0, n + 1).drop_last() =~= entries.subrange(0, n));
        lemma_lookup_extends(entries, n + 1, key);
    } else {
        assert(entries.subrange(0, n) =~= entries);
    }
}

/// The first entry for a key is one of the entries, and is for that key.
pub proof fn lemma_lookup_bounds<K>(entries: Seq<(K, u32)>, key: K)
    ensures
        lookup(entries, key) matches Some(i) ==> 0 <= i < entries.len() && entries[i].0 == key,
    decreases entries.len(),
{
    if entries.len() > 0 {
        lemma_lookup_bounds(entries.drop_last(), key);
    }
}

} // verus!
