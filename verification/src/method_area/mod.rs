//! The method area: the classes loaded into the virtual machine, each with its run-time
//! constant pool, fields and methods.
//!
//! Classes are kept in the order they were loaded, and a class is found by its index there. A
//! class's super class is loaded before it, so it always stands at a lower index.

use vstd::prelude::*;

use crate::class_file::{ClassFile, Code, CodeModel};
use crate::java::field_type::{TypeModel, type_zero_value};
use crate::java::method_type::MethodModel;
use crate::java::{FieldType, MethodType, Value};
use crate::method_area::const_pool::{ConstPool, RuntimeConst};
use crate::method_area::layout::{ALIGN, class_loadable, define_class, loaded_class};

pub mod const_pool;
pub mod layout;

verus! {

/// The access flags of a class.
pub struct ClassFlags {
    pub bits: u16,
}

/// An attribute of a loaded class; none is kept yet.
pub struct Attribute {}

/// The model of a field of a loaded class.
pub struct FieldModel {
    pub class: usize,
    pub is_static: bool,
    pub name: Seq<char>,
    pub descriptor: TypeModel,
    pub offset: usize,
    pub width: usize,
}

/// A field of a loaded class.
pub struct Field {
    /// The index of the field's class in the method area.
    pub class: usize,
    pub is_static: bool,
    pub name: String,
    pub descriptor: FieldType,
    /// The offset of the field in the object's data, or in the class's static data.
    pub offset: usize,
    /// The width in bytes of the field.
    pub width: usize,
}

impl View for Field {
    type V = FieldModel;

    open spec fn view(&self) -> FieldModel {
        FieldModel {
            class: self.class,
            is_static: self.is_static,
            name: self.name@,
            descriptor: self.descriptor@,
            offset: self.offset,
            width: self.width,
        }
    }
}

/// The model of a method of a loaded class.
pub struct MethodInfo {
    pub class: usize,
    pub is_static: bool,
    pub is_native: bool,
    pub is_synchronized: bool,
    pub name: Seq<char>,
    pub descriptor: MethodModel,
    pub code: Option<CodeModel>,
}

/// A method of a loaded class.
pub struct Method {
    /// The index of the method's class in the method area.
    pub class: usize,
    pub is_static: bool,
    pub is_native: bool,
    /// Whether a call of the method holds the monitor of its object, or of its class when it
    /// is static.
    pub is_synchronized: bool,
    pub name: String,
    pub descriptor: MethodType,
    pub code: Option<Code>,
}

impl View for Method {
    type V = MethodInfo;

    open spec fn view(&self) -> MethodInfo {
        MethodInfo {
            class: self.class,
            is_static: self.is_static,
            is_native: self.is_native,
            is_synchronized: self.is_synchronized,
            name: self.name@,
            descriptor: self.descriptor@,
            code: match self.code {
                Some(c) => Some(c@),
                None => None,
            },
        }
    }
}

/// The model of a loaded class.
pub struct ClassModel {
    pub name: Seq<char>,
    pub flags: u16,
    pub const_pool: Map<u16, RuntimeConst>,
    pub super_class: Option<usize>,
    pub instance_fields: Seq<FieldModel>,
    pub static_fields: Seq<FieldModel>,
    pub methods: Seq<MethodInfo>,
    pub instance_width: usize,
    pub static_width: usize,
    pub source_file: Option<Seq<char>>,
}

/// A loaded class.
pub struct Class {
    pub name: String,
    pub flags: ClassFlags,
    pub const_pool: ConstPool,
    /// The index of the super class in the method area, if the class has one.
    pub super_class: Option<usize>,
    pub interfaces: Vec<usize>,
    pub instance_fields: Vec<Field>,
    pub static_fields: Vec<Field>,
    pub methods: Vec<Method>,
    pub attributes: Vec<Attribute>,
    /// The width in bytes of an object's data, the super classes' fields included.
    pub instance_width: usize,
    /// The width in bytes of the class's static data.
    pub static_width: usize,
    pub source_file: Option<String>,
}

impl View for Class {
    type V = ClassModel;

    open spec fn view(&self) -> ClassModel {
        ClassModel {
            name: self.name@,
            flags: self.flags.bits,
            const_pool: self.const_pool@,
            super_class: self.super_class,
            instance_fields: self.instance_fields@.map_values(|f: Field| f@),
            static_fields: self.static_fields@.map_values(|f: Field| f@),
            methods: self.methods@.map_values(|m: Method| m@),
            instance_width: self.instance_width,
            static_width: self.static_width,
            source_file: match self.source_file {
                Some(s) => Some(s@),
                None => None,
            },
        }
    }
}

/// The model of the method area: the classes in loading order, and which of them were
/// initialized.
pub struct MethodAreaModel {
    pub classes: Seq<ClassModel>,
    pub initialized: Seq<bool>,
}

/// Whether a method area model is consistent: one flag per class, and every super class
/// loaded before its subclasses.
pub open spec fn area_wf(m: MethodAreaModel) -> bool {
    &&& m.initialized.len() == m.classes.len()
    &&& forall|i: int|
        0 <= i < m.classes.len() ==> match (#[trigger] m.classes[i]).super_class {
            Some(s) => s < i,
            None => true,
        }
}

/// The index of the first class named `name` among `classes`, if any.
pub open spec fn find_name(classes: Seq<ClassModel>, name: Seq<char>) -> Option<int>
    decreases classes.len(),
{
    if classes.len() == 0 {
        None
    } else {
        match find_name(classes.drop_last(), name) {
            Some(i) => Some(i),
            None => if classes.last().name == name {
                Some(classes.len() - 1)
            } else {
                None
            },
        }
    }
}

/// Whether the class at `c` or one of its super classes is named `name`.
pub open spec fn has_ancestor_named(classes: Seq<ClassModel>, c: int, name: Seq<char>) -> bool
    decreases c,
{
    if c < 0 || c >= classes.len() {
        false
    } else if classes[c].name == name {
        true
    } else {
        match classes[c].super_class {
            Some(s) => if s < c {
                has_ancestor_named(classes, s as int, name)
            } else {
                false
            },
            None => false,
        }
    }
}

/// The class at `c` is an instance of `other` when it or a super class has `other`'s name.
pub open spec fn instance_of_spec(classes: Seq<ClassModel>, c: int, other: int) -> bool {
    has_ancestor_named(classes, c, classes[other].name)
}

/// The first class, from the root of the hierarchy of the class at `c` down to it, that was
/// not initialized; `None` when they all were.
pub open spec fn first_uninitialized(m: MethodAreaModel, c: int) -> Option<int>
    decreases c,
{
    if c < 0 || c >= m.classes.len() {
        None
    } else {
        let above = match m.classes[c].super_class {
            Some(s) => if s < c {
                first_uninitialized(m, s as int)
            } else {
                None
            },
            None => None,
        };
        match above {
            Some(k) => Some(k),
            None => if m.initialized[c] {
                None
            } else {
                Some(c)
            },
        }
    }
}

/// The values the fields of a new object of the class at `c` start with: one slot for each
/// instance field of the class and its super classes, the root class's first, each its type's
/// zero.
pub open spec fn instance_slots(classes: Seq<ClassModel>, c: int) -> Seq<Value>
    decreases c,
{
    if c < 0 || c >= classes.len() {
        Seq::empty()
    } else {
        let above = match classes[c].super_class {
            Some(s) => if s < c {
                instance_slots(classes, s as int)
            } else {
                Seq::empty()
            },
            None => Seq::empty(),
        };
        above + classes[c].instance_fields.map_values(|f: FieldModel| type_zero_value(f.descriptor))
    }
}

/// The index of the first of `fields` with the given name and type, if any.
pub open spec fn field_index(fields: Seq<FieldModel>, name: Seq<char>, descriptor: TypeModel) -> Option<int>
    decreases fields.len(),
{
    if fields.len() == 0 {
        None
    } else {
        match field_index(fields.drop_last(), name, descriptor) {
            Some(i) => Some(i),
            None => if fields.last().name == name && fields.last().descriptor == descriptor {
                Some(fields.len() - 1)
            } else {
                None
            },
        }
    }
}

/// The slot, in an object of the class at `c`, of the instance field with the given name and
/// type: the class's own fields are looked at first, then those of its super classes.
pub open spec fn field_slot(classes: Seq<ClassModel>, c: int, name: Seq<char>, descriptor: TypeModel) -> Option<int>
    decreases c,
{
    if c < 0 || c >= classes.len() {
        None
    } else {
        let sup = classes[c].super_class;
        let base = match sup {
            Some(s) => if s < c { instance_slots(classes, s as int).len() as int } else { 0 },
            None => 0,
        };
        match field_index(classes[c].instance_fields, name, descriptor) {
            Some(j) => Some(base + j),
            None => match sup {
                Some(s) => if s < c {
                    field_slot(classes, s as int, name, descriptor)
                } else {
                    None
                },
                None => None,
            },
        }
    }
}

/// The index of the first of `methods` with the given name and type, if any.
pub open spec fn method_index(methods: Seq<MethodInfo>, name: Seq<char>, descriptor: MethodModel) -> Option<int>
    decreases methods.len(),
{
    if methods.len() == 0 {
        None
    } else {
        match method_index(methods.drop_last(), name, descriptor) {
            Some(i) => Some(i),
            None => if methods.last().name == name && methods.last().descriptor == descriptor {
                Some(methods.len() - 1)
            } else {
                None
            },
        }
    }
}

/// The method with the given name and type that the class at `c` has: its own first, then
/// one of its super classes'; the class that declares it and the method's index there.
pub open spec fn method_lookup(classes: Seq<ClassModel>, c: int, name: Seq<char>, descriptor: MethodModel) -> Option<(int, int)>
    decreases c,
{
    if c < 0 || c >= classes.len() {
        None
    } else {
        match method_index(classes[c].methods, name, descriptor) {
            Some(j) => Some((c, j)),
            None => match classes[c].super_class {
                Some(s) => if s < c {
                    method_lookup(classes, s as int, name, descriptor)
                } else {
                    None
                },
                None => None,
            },
        }
    }
}

/// The width of the data of an object of the super class `super_class`: zero where there is
/// none.
pub open spec fn super_width(classes: Seq<ClassModel>, super_class: Option<usize>) -> usize {
    match super_class {
        Some(s) => classes[s as int].instance_width,
        None => 0,
    }
}

/// The method area.
pub struct MethodArea {
    classes: Vec<Class>,
    initialized: Vec<bool>,
}

impl View for MethodArea {
    type V = MethodAreaModel;

    closed spec fn view(&self) -> MethodAreaModel {
        MethodAreaModel {
            classes: self.classes@.map_values(|c: Class| c@),
            initialized: self.initialized@,
        }
    }
}

impl MethodArea {
    /// A method area with no class loaded.
    pub fn new() -> (m: Self)
        ensures
            m@.classes == Seq::<ClassModel>::empty(),
            m@.initialized == Seq::<bool>::empty(),
            area_wf(m@),
    {
        let m = MethodArea { classes: Vec::new(), initialized: Vec::new() };
        proof {
            assert(m@.classes =~= Seq::<ClassModel>::empty());
        }
        m
    }

    /// The number of classes loaded.
    pub fn len(&self) -> (n: usize)
        ensures
            n == self@.classes.len(),
    {
        self.classes.len()
    }

    /// The class at `index`.
    pub fn class(&self, index: usize) -> (c: &Class)
        requires
            index < self@.classes.len(),
        ensures
            c@ == self@.classes[index as int],
    {
        &self.classes[index]
    }

    /// Whether the class at `index` was initialized.
    pub fn is_initialized(&self, index: usize) -> (b: bool)
        requires
            area_wf(self@),
            index < self@.classes.len(),
        ensures
            b == self@.initialized[index as int],
    {
        self.initialized[index]
    }

    /// The index of the first class named `name`, if one was loaded.
    pub fn find_class(&self, name: &String) -> (res: Option<usize>)
        ensures
            match res {
                Some(i) => find_name(self@.classes, name@) == Some(i as int),
                None => find_name(self@.classes, name@) is None,
            },
    {
        let ghost classes = self@.classes;
        let mut i: usize = 0;
        while i < self.classes.len()
            invariant
                i <= self.classes.len(),
                classes == self@.classes,
                find_name(classes.subrange(0, i as int), name@) is None,
            decreases self.classes.len() - i,
        {
            proof {
                assert(classes.subrange(0, i + 1).drop_last() =~= classes.subrange(0, i as int));
            }
            if self.classes[i].name == *name {
                proof {
                    lemma_find_name_prefix(classes, i as int + 1, name@);
                }
                return Some(i);
            }
            i += 1;
        }
        proof {
            assert(classes.subrange(0, i as int) =~= classes);
        }
        None
    }

    /// Add `class` to the method area, not initialized, unless a class of its name was loaded
    /// already; returns the index of the class of that name.
    pub fn insert(&mut self, class: Class) -> (index: usize)
        requires
            area_wf(old(self)@),
            match class.super_class {
                Some(s) => s < old(self)@.classes.len(),
                None => true,
            },
        ensures
            area_wf(final(self)@),
            match find_name(old(self)@.classes, class.name@) {
                Some(i) => index == i && final(self)@ == old(self)@,
                None => {
                    &&& index == old(self)@.classes.len()
                    &&& final(self)@.classes == old(self)@.classes.push(class@)
                    &&& final(self)@.initialized == old(self)@.initialized.push(false)
                },
            },
    {
        match self.find_class(&class.name) {
            Some(i) => i,
            None => {
                let index = self.classes.len();
                self.classes.push(class);
                self.initialized.push(false);
                proof {
                    assert(final(self)@.classes =~= old(self)@.classes.push(class@));
                    assert(final(self)@.initialized =~= old(self)@.initialized.push(false));
                    let m = final(self)@;
                    assert forall|i: int| 0 <= i < m.classes.len() implies match (#[trigger] m.classes[i]).super_class {
                        Some(s) => s < i,
                        None => true,
                    } by {
                        if i < index {
                            assert(m.classes[i] == old(self)@.classes[i]);
                        }
                    }
                }
                index
            },
        }
    }

    /// Record that the class at `index` was initialized.
    pub fn mark_initialized(&mut self, index: usize)
        requires
            area_wf(old(self)@),
            index < old(self)@.classes.len(),
        ensures
            final(self)@.classes == old(self)@.classes,
            final(self)@.initialized == old(self)@.initialized.update(index as int, true),
            area_wf(final(self)@),
    {
        self.initialized.set(index, true);
    }

    /// Start initializing the class at `index`: record it as initialized, so that it is
    /// initialized once, and return the static initializer `<clinit>()V` to run, as the class
    /// or its nearest super class that has one declares it: its class and index there.
    pub fn start_initialize(&mut self, index: usize) -> (clinit: Option<(usize, usize)>)
        requires
            area_wf(old(self)@),
            index < old(self)@.classes.len(),
        ensures
            final(self)@.classes == old(self)@.classes,
            final(self)@.initialized == old(self)@.initialized.update(index as int, true),
            area_wf(final(self)@),
            match method_lookup(old(self)@.classes, index as int, "<clinit>"@, void_method()) {
                Some((c, m)) => clinit == Some((c as usize, m as usize)),
                None => clinit is None,
            },
    {
        self.mark_initialized(index);
        let name = String::from_str("<clinit>");
        let descriptor = MethodType { parameters: Vec::new(), return_type: None };
        proof {
            reveal_strlit("<clinit>");
            assert(descriptor@.parameters =~= void_method().parameters);
        }
        self.find_method(index, &name, &descriptor)
    }

    /// The first class, from the root of the hierarchy of the class at `class` down to it,
    /// that was not initialized; `None` when they all were.
    pub fn next_to_initialize(&self, class: usize) -> (res: Option<usize>)
        requires
            area_wf(self@),
            class < self@.classes.len(),
        ensures
            match res {
                Some(k) => first_uninitialized(self@, class as int) == Some(k as int),
                None => first_uninitialized(self@, class as int) is None,
            },
        decreases class,
    {
        let above = match self.classes[class].super_class {
            Some(s) => {
                assert(self@.classes[class as int].super_class == Some(s));
                self.next_to_initialize(s)
            },
            None => None,
        };
        match above {
            Some(k) => Some(k),
            None => if self.initialized[class] {
                None
            } else {
                Some(class)
            },
        }
    }

    /// Whether the class at `class`, or one of its super classes, is the class at `other`, by
    /// name.
    pub fn is_instance_of(&self, class: usize, other: usize) -> (b: bool)
        requires
            area_wf(self@),
            class < self@.classes.len(),
            other < self@.classes.len(),
        ensures
            b == instance_of_spec(self@.classes, class as int, other as int),
    {
        self.has_ancestor_named(class, &self.classes[other].name)
    }

    /// The values the fields of a new object of the class at `class` start with.
    pub fn instance_slots(&self, class: usize) -> (slots: Vec<Value>)
        requires
            area_wf(self@),
            class < self@.classes.len(),
        ensures
            slots@ == instance_slots(self@.classes, class as int),
        decreases class,
    {
        let mut slots = match self.classes[class].super_class {
            Some(s) => {
                assert(self@.classes[class as int].super_class == Some(s));
                self.instance_slots(s)
            },
            None => Vec::new(),
        };
        let ghost above = slots@;
        let fields = &self.classes[class].instance_fields;
        let ghost models = self@.classes[class as int].instance_fields;
        let mut i: usize = 0;
        while i < fields.len()
            invariant
                i <= fields.len(),
                models == fields@.map_values(|f: Field| f@),
                slots@ == above + models.subrange(0, i as int).map_values(
                    |f: FieldModel| type_zero_value(f.descriptor),
                ),
            decreases fields.len() - i,
        {
            slots.push(fields[i].descriptor.zero_value());
            proof {
                assert(models.subrange(0, i + 1).map_values(|f: FieldModel| type_zero_value(f.descriptor))
                    =~= models.subrange(0, i as int).map_values(|f: FieldModel| type_zero_value(f.descriptor)).push(
                    type_zero_value(models[i as int].descriptor),
                ));
            }
            i += 1;
        }
        proof {
            assert(models.subrange(0, i as int) =~= models);
        }
        slots
    }

    /// The slot, in an object of the class at `class`, of the instance field named `name` of
    /// type `descriptor`, if there is one.
    pub fn field_slot(&self, class: usize, name: &String, descriptor: &FieldType) -> (slot: Option<usize>)
        requires
            area_wf(self@),
            class < self@.classes.len(),
        ensures
            match slot {
                Some(k) => field_slot(self@.classes, class as int, name@, descriptor@) == Some(k as int),
                None => field_slot(self@.classes, class as int, name@, descriptor@) is None,
            },
        decreases class,
    {
        let sup = self.classes[class].super_class;
        let fields = &self.classes[class].instance_fields;
        let ghost models = self@.classes[class as int].instance_fields;
        let mut i: usize = 0;
        while i < fields.len()
            invariant
                i <= fields.len(),
                area_wf(self@),
                class < self@.classes.len(),
                sup == self@.classes[class as int].super_class,
                models == self@.classes[class as int].instance_fields,
                models == fields@.map_values(|f: Field| f@),
                field_index(models.subrange(0, i as int), name@, descriptor@) is None,
            decreases fields.len() - i,
        {
            proof {
                assert(models.subrange(0, i + 1).drop_last() =~= models.subrange(0, i as int));
            }
            if fields[i].name == *name && fields[i].descriptor.same_as(descriptor) {
                let all = self.instance_slots(class);
                proof {
                    lemma_field_index_prefix(models, i as int + 1, name@, descriptor@);
                    lemma_slots_len(self@.classes, class as int);
                }
                let base = all.len() - fields.len();
                return Some(base + i);
            }
            i += 1;
        }
        proof {
            assert(models.subrange(0, i as int) =~= models);
        }
        match sup {
            Some(s) => {
                assert(self@.classes[class as int].super_class == Some(s));
                self.field_slot(s, name, descriptor)
            },
            None => None,
        }
    }


    /// Load the class named `name` from `file`, unless a class of that name was loaded already;
    /// its super class, at `super_class`, was loaded before it. Returns the index of the class
    /// of that name.
    pub fn load_class_file(&mut self, name: String, file: &ClassFile, super_class: Option<usize>) -> (index: usize)
        requires
            area_wf(old(self)@),
            super_class matches Some(s) ==> s < old(self)@.classes.len(),
            class_loadable(file@),
            super_width(old(self)@.classes, super_class) + 8 * file@.fields.len() + ALIGN <= usize::MAX,
        ensures
            area_wf(final(self)@),
            match find_name(old(self)@.classes, name@) {
                Some(i) => index == i && final(self)@ == old(self)@,
                None => {
                    &&& index == old(self)@.classes.len()
                    &&& final(self)@.classes == old(self)@.classes.push(
                        loaded_class(name@, file@, index, super_class, super_width(old(self)@.classes, super_class)),
                    )
                    &&& final(self)@.initialized == old(self)@.initialized.push(false)
                },
            },
    {
        match self.find_class(&name) {
            Some(i) => i,
            None => {
                let width = match super_class {
                    Some(s) => self.classes[s].instance_width,
                    None => 0,
                };
                let index = self.classes.len();
                let class = define_class(name, file, index, super_class, width);
                self.insert(class)
            },
        }
    }

    /// Whether `class` itself declares an instance field named `name` of type `descriptor`.
    pub fn declares_field(class: &Class, name: &String, descriptor: &FieldType) -> (b: bool)
        ensures
            b == field_index(class@.instance_fields, name@, descriptor@) is Some,
    {
        Self::position(&class.instance_fields, name, descriptor).is_some()
    }

    /// The index of the static field of the class at `class` named `name` of type
    /// `descriptor`, if it declares one.
    pub fn static_index(&self, class: usize, name: &String, descriptor: &FieldType) -> (res: Option<usize>)
        requires
            class < self@.classes.len(),
        ensures
            match field_index(self@.classes[class as int].static_fields, name@, descriptor@) {
                Some(i) => res matches Some(k) && k == i,
                None => res is None,
            },
    {
        Self::position(&self.classes[class].static_fields, name, descriptor)
    }

    /// The index of the first of `fields` named `name` of type `descriptor`, if any.
    fn position(fields: &Vec<Field>, name: &String, descriptor: &FieldType) -> (res: Option<usize>)
        ensures
            match field_index(fields@.map_values(|f: Field| f@), name@, descriptor@) {
                Some(i) => res matches Some(k) && k == i,
                None => res is None,
            },
    {
        let ghost models = fields@.map_values(|f: Field| f@);
        let mut i: usize = 0;
        while i < fields.len()
            invariant
                i <= fields.len(),
                models == fields@.map_values(|f: Field| f@),
                field_index(models.subrange(0, i as int), name@, descriptor@) is None,
            decreases fields.len() - i,
        {
            proof {
                assert(models.subrange(0, i + 1).drop_last() =~= models.subrange(0, i as int));
            }
            if fields[i].name == *name && fields[i].descriptor.same_as(descriptor) {
                proof {
                    lemma_field_index_prefix(models, i as int + 1, name@, descriptor@);
                }
                return Some(i);
            }
            i += 1;
        }
        proof {
            assert(models.subrange(0, i as int) =~= models);
        }
        None
    }


    /// The method named `name` of type `descriptor` that the class at `class` has, its own
    /// first, then one of its super classes': the declaring class and the method's index there.
    pub fn find_method(&self, class: usize, name: &String, descriptor: &MethodType) -> (res: Option<(usize, usize)>)
        requires
            area_wf(self@),
            class < self@.classes.len(),
        ensures
            match method_lookup(self@.classes, class as int, name@, descriptor@) {
                Some((c, j)) => res matches Some((k, m)) && k == c && m == j && c < self@.classes.len()
                    && j < self@.classes[c].methods.len(),
                None => res is None,
            },
        decreases class,
    {
        let methods = &self.classes[class].methods;
        let ghost models = self@.classes[class as int].methods;
        let mut i: usize = 0;
        while i < methods.len()
            invariant
                i <= methods.len(),
                class < self@.classes.len(),
                models == self@.classes[class as int].methods,
                models == methods@.map_values(|m: Method| m@),
                method_index(models.subrange(0, i as int), name@, descriptor@) is None,
            decreases methods.len() - i,
        {
            proof {
                assert(models.subrange(0, i + 1).drop_last() =~= models.subrange(0, i as int));
            }
            if methods[i].name == *name && methods[i].descriptor.same_as(descriptor) {
                proof {
                    lemma_method_index_prefix(models, i as int + 1, name@, descriptor@);
                    assert(method_lookup(self@.classes, class as int, name@, descriptor@) == Some((class as int, i as int)));
                }
                return Some((class, i));
            }
            i += 1;
        }
        proof {
            assert(models.subrange(0, i as int) =~= models);
        }
        match self.classes[class].super_class {
            Some(s) => {
                assert(self@.classes[class as int].super_class == Some(s));
                self.find_method(s, name, descriptor)
            },
            None => None,
        }
    }

    fn has_ancestor_named(&self, class: usize, name: &String) -> (b: bool)
        requires
            area_wf(self@),
            class < self@.classes.len(),
        ensures
            b == has_ancestor_named(self@.classes, class as int, name@),
        decreases class,
    {
        if self.classes[class].name == *name {
            return true;
        }
        match self.classes[class].super_class {
            Some(s) => {
                assert(self@.classes[class as int].super_class == Some(s));
                self.has_ancestor_named(s, name)
            },
            None => false,
        }
    }
}

/// The first class named `name` is one of the classes, and has that name.
pub proof fn lemma_find_name_bounds(classes: Seq<ClassModel>, name: Seq<char>)
    ensures
        find_name(classes, name) matches Some(i) ==> 0 <= i < classes.len() && classes[i].name == name,
    decreases classes.len(),
{
    if classes.len() > 0 {
        lemma_find_name_bounds(classes.drop_last(), name);
    }
}

/// The first field with a name and type in a prefix that ends with such a field is that one,
/// unless one stands earlier.
proof fn lemma_field_index_prefix(fields: Seq<FieldModel>, n: int, name: Seq<char>, descriptor: TypeModel)
    requires
        0 < n <= fields.len(),
        fields[n - 1].name == name && fields[n - 1].descriptor == descriptor,
        field_index(fields.subrange(0, n - 1), name, descriptor) is None,
    ensures
        field_index(fields, name, descriptor) == Some(n - 1),
    decreases fields.len() - n,
{
    assert(fields.subrange(0, n).drop_last() =~= fields.subrange(0, n - 1));
    if n < fields.len() {
        lemma_field_index_extends(fields, n, name, descriptor);
    } else {
        assert(fields.subrange(0, n) =~= fields);
    }
}

/// Once a prefix holds a field with a name and type, longer prefixes find the same one first.
proof fn lemma_field_index_extends(fields: Seq<FieldModel>, n: int, name: Seq<char>, descriptor: TypeModel)
    requires
        0 < n <= fields.len(),
        field_index(fields.subrange(0, n), name, descriptor) is Some,
    ensures
        field_index(fields, name, descriptor) == field_index(fields.subrange(0, n), name, descriptor),
    decreases fields.len() - n,
{
    if n < fields.len() {
        assert(fields.subrange(0, n + 1).drop_last() =~= fields.subrange(0, n));
        lemma_field_index_extends(fields, n + 1, name, descriptor);
    } else {
        assert(fields.subrange(0, n) =~= fields);
    }
}

/// An object of the class at `c` has a slot for each field the class and its super classes
/// declare, the ones above first.
proof fn lemma_slots_len(classes: Seq<ClassModel>, c: int)
    requires
        0 <= c < classes.len(),
    ensures
        instance_slots(classes, c).len() == (match classes[c].super_class {
            Some(s) => if s < c { instance_slots(classes, s as int).len() as int } else { 0 },
            None => 0,
        }) + classes[c].instance_fields.len(),
{
}

/// A field's slot is one of the slots of an object of the class.
pub proof fn lemma_field_slot_bound(classes: Seq<ClassModel>, c: int, name: Seq<char>, descriptor: TypeModel)
    requires
        field_slot(classes, c, name, descriptor) is Some,
    ensures
        0 <= field_slot(classes, c, name, descriptor)->Some_0 < instance_slots(classes, c).len(),
    decreases c,
{
    lemma_field_index_bound(classes[c].instance_fields, name, descriptor);
    lemma_slots_len(classes, c);
    match classes[c].super_class {
        Some(s) => {
            if s < c && field_index(classes[c].instance_fields, name, descriptor) is None {
                lemma_field_slot_bound(classes, s as int, name, descriptor);
            }
        },
        None => {},
    }
}

/// The first field with a name and type is one of the fields.
pub proof fn lemma_field_index_bound(fields: Seq<FieldModel>, name: Seq<char>, descriptor: TypeModel)
    ensures
        field_index(fields, name, descriptor) matches Some(i) ==> 0 <= i < fields.len(),
    decreases fields.len(),
{
    if fields.len() > 0 {
        lemma_field_index_bound(fields.drop_last(), name, descriptor);
    }
}

/// The first class named `name` in a prefix that ends with a class of that name is that one,
/// unless one stands earlier.
proof fn lemma_find_name_prefix(classes: Seq<ClassModel>, n: int, name: Seq<char>)
    requires
        0 < n <= classes.len(),
        classes[n - 1].name == name,
        find_name(classes.subrange(0, n - 1), name) is None,
    ensures
        find_name(classes, name) == Some(n - 1),
    decreases classes.len() - n,
{
    assert(classes.subrange(0, n).drop_last() =~= classes.subrange(0, n - 1));
    if n < classes.len() {
        lemma_find_name_extends(classes, n, name);
    } else {
        assert(classes.subrange(0, n) =~= classes);
    }
}

/// Once a prefix holds a class named `name`, longer prefixes find the same one first.
proof fn lemma_find_name_extends(classes: Seq<ClassModel>, n: int, name: Seq<char>)
    requires
        0 < n <= classes.len(),
        find_name(classes.subrange(0, n), name) is Some,
    ensures
        find_name(classes, name) == find_name(classes.subrange(0, n), name),
    decreases classes.len() - n,
{
    if n < classes.len() {
        assert(classes.subrange(0, n + 1).drop_last() =~= classes.subrange(0, n));
        lemma_find_name_extends(classes, n + 1, name);
    } else {
        assert(classes.subrange(0, n) =~= classes);
    }
}

/// Loading another class leaves the slots of the objects of the classes loaded before as
/// they were.
pub proof fn lemma_slots_push(classes: Seq<ClassModel>, c: int, x: ClassModel)
    requires
        0 <= c < classes.len(),
    ensures
        instance_slots(classes.push(x), c) == instance_slots(classes, c),
    decreases c,
{
    assert(classes.push(x)[c] == classes[c]);
    match classes[c].super_class {
        Some(s) => {
            if s < c {
                lemma_slots_push(classes, s as int, x);
            }
        },
        None => {},
    }
}

/// Loading another class leaves the slots of the fields of the classes loaded before as they
/// were.
pub proof fn lemma_field_slot_push(classes: Seq<ClassModel>, c: int, x: ClassModel, name: Seq<char>, descriptor: TypeModel)
    requires
        0 <= c < classes.len(),
    ensures
        field_slot(classes.push(x), c, name, descriptor) == field_slot(classes, c, name, descriptor),
    decreases c,
{
    assert(classes.push(x)[c] == classes[c]);
    match classes[c].super_class {
        Some(s) => {
            if s < c {
                lemma_slots_push(classes, s as int, x);
                lemma_field_slot_push(classes, s as int, x, name, descriptor);
            }
        },
        None => {},
    }
}

/// Loading another class leaves the first class of each name loaded before as it was.
pub proof fn lemma_find_name_push(classes: Seq<ClassModel>, x: ClassModel, name: Seq<char>)
    ensures
        find_name(classes, name) is Some ==> find_name(classes.push(x), name) == find_name(classes, name),
        find_name(classes, name) is None ==> find_name(classes.push(x), name) == (if x.name == name {
            Some(classes.len() as int)
        } else {
            None
        }),
{
    assert(classes.push(x).drop_last() =~= classes);
}

/// The type `()V`: no parameters, returns nothing.
pub open spec fn void_method() -> MethodModel {
    MethodModel { parameters: Seq::empty(), return_type: None }
}

/// The first method with a name and type in a prefix that ends with such a method is that
/// one, unless one stands earlier.
proof fn lemma_method_index_prefix(methods: Seq<MethodInfo>, n: int, name: Seq<char>, descriptor: MethodModel)
    requires
        0 < n <= methods.len(),
        methods[n - 1].name == name && methods[n - 1].descriptor == descriptor,
        method_index(methods.subrange(0, n - 1), name, descriptor) is None,
    ensures
        method_index(methods, name, descriptor) == Some(n - 1),
    decreases methods.len() - n,
{
    assert(methods.subrange(0, n).drop_last() =~= methods.subrange(0, n - 1));
    if n < methods.len() {
        lemma_method_index_extends(methods, n, name, descriptor);
    } else {
        assert(methods.subrange(0, n) =~= methods);
    }
}

/// Once a prefix holds a method with a name and type, longer prefixes find the same one first.
proof fn lemma_method_index_extends(methods: Seq<MethodInfo>, n: int, name: Seq<char>, descriptor: MethodModel)
    requires
        0 < n <= methods.len(),
        method_index(methods.subrange(0, n), name, descriptor) is Some,
    ensures
        method_index(methods, name, descriptor) == method_index(methods.subrange(0, n), name, descriptor),
    decreases methods.len() - n,
{
    if n < methods.len() {
        assert(methods.subrange(0, n + 1).drop_last() =~= methods.subrange(0, n));
        lemma_method_index_extends(methods, n + 1, name, descriptor);
    } else {
        assert(methods.subrange(0, n) =~= methods);
    }
}

/// The first method with a name and type is one of the methods.
pub proof fn lemma_method_index_bound(methods: Seq<MethodInfo>, name: Seq<char>, descriptor: MethodModel)
    ensures
        method_index(methods, name, descriptor) matches Some(i) ==> 0 <= i < methods.len()
            && methods[i].name == name && methods[i].descriptor == descriptor,
    decreases methods.len(),
{
    if methods.len() > 0 {
        lemma_method_index_bound(methods.drop_last(), name, descriptor);
    }
}

/// The method a class has is one of the methods of a loaded class, with that name and type.
pub proof fn lemma_method_lookup_bound(classes: Seq<ClassModel>, c: int, name: Seq<char>, descriptor: MethodModel)
    ensures
        method_lookup(classes, c, name, descriptor) matches Some((k, j)) ==> 0 <= k < classes.len()
            && 0 <= j < classes[k].methods.len() && classes[k].methods[j].name == name
            && classes[k].methods[j].descriptor == descriptor,
    decreases c,
{
    if 0 <= c < classes.len() {
        lemma_method_index_bound(classes[c].methods, name, descriptor);
        match classes[c].super_class {
            Some(s) => {
                if s < c {
                    lemma_method_lookup_bound(classes, s as int, name, descriptor);
                }
            },
            None => {},
        }
    }
}

/// Whether the `j`th method of `methods` has the given name and type.
pub open spec fn declares(methods: Seq<MethodInfo>, j: int, name: Seq<char>, descriptor: MethodModel) -> bool {
    0 <= j < methods.len() && methods[j].name == name && methods[j].descriptor == descriptor
}

/// A method with a name and type among `methods` makes the first such one found, at or
/// before it.
proof fn lemma_method_index_finds(methods: Seq<MethodInfo>, j: int, name: Seq<char>, descriptor: MethodModel)
    requires
        declares(methods, j, name, descriptor),
    ensures
        method_index(methods, name, descriptor) matches Some(k) && k <= j && declares(methods, k, name, descriptor)
            && forall|i: int| 0 <= i < k ==> !declares(methods, i, name, descriptor),
    decreases methods.len(),
{
    let rest = methods.drop_last();
    if j < methods.len() - 1 {
        assert(declares(rest, j, name, descriptor));
        lemma_method_index_finds(rest, j, name, descriptor);
        let k = method_index(rest, name, descriptor)->Some_0;
        assert forall|i: int| 0 <= i < k implies !declares(methods, i, name, descriptor) by {
            assert(!declares(rest, i, name, descriptor));
        }
    } else {
        match method_index(rest, name, descriptor) {
            Some(k) => {
                lemma_method_index_bound(rest, name, descriptor);
                lemma_method_index_first(rest, name, descriptor);
                assert forall|i: int| 0 <= i < k implies !declares(methods, i, name, descriptor) by {
                    assert(!declares(rest, i, name, descriptor));
                }
            },
            None => {
                lemma_method_index_first(rest, name, descriptor);
                assert forall|i: int| 0 <= i < j implies !declares(methods, i, name, descriptor) by {
                    assert(!declares(rest, i, name, descriptor));
                }
            },
        }
    }
}

/// No method before the first one found with a name and type has that name and type, and
/// when none is found, none has.
proof fn lemma_method_index_first(methods: Seq<MethodInfo>, name: Seq<char>, descriptor: MethodModel)
    ensures
        match method_index(methods, name, descriptor) {
            Some(k) => forall|i: int| 0 <= i < k ==> !declares(methods, i, name, descriptor),
            None => forall|i: int| 0 <= i < methods.len() ==> !declares(methods, i, name, descriptor),
        },
    decreases methods.len(),
{
    if methods.len() > 0 {
        let rest = methods.drop_last();
        lemma_method_index_first(rest, name, descriptor);
        lemma_method_index_bound(rest, name, descriptor);
        match method_index(rest, name, descriptor) {
            Some(k) => {
                assert forall|i: int| 0 <= i < k implies !declares(methods, i, name, descriptor) by {
                    assert(!declares(rest, i, name, descriptor));
                }
            },
            None => {
                assert forall|i: int| 0 <= i < methods.len() - 1 implies !declares(methods, i, name, descriptor) by {
                    assert(!declares(rest, i, name, descriptor));
                }
            },
        }
    }
}

/// A class's own method comes first: when the class at `c` declares a method with a name and
/// type, looking that method up on `c` (as `find_method` does for an invocation) gives the
/// first such method of `c` itself, whatever its super classes declare; an override always
/// takes effect.
pub proof fn law_own_method_first(
    classes: Seq<ClassModel>,
    c: int,
    j: int,
    name: Seq<char>,
    descriptor: MethodModel,
)
    requires
        0 <= c < classes.len(),
        declares(classes[c].methods, j, name, descriptor),
    ensures
        method_lookup(classes, c, name, descriptor) matches Some((d, k)) && d == c && k <= j
            && declares(classes[c].methods, k, name, descriptor)
            && forall|i: int| 0 <= i < k ==> !declares(classes[c].methods, i, name, descriptor),
{
    lemma_method_index_finds(classes[c].methods, j, name, descriptor);
}

/// Every loaded class is an instance of itself.
pub proof fn law_instance_of_itself(classes: Seq<ClassModel>, c: int)
    requires
        0 <= c < classes.len(),
    ensures
        instance_of_spec(classes, c, c),
{
}

/// Being an instance is inherited: a class whose super class is an instance of `other` is
/// one too, as is each class below it.
pub proof fn law_instance_of_inherited(classes: Seq<ClassModel>, c: int, other: int)
    requires
        0 <= c < classes.len(),
        classes[c].super_class matches Some(s) && s < c && instance_of_spec(classes, s as int, other),
    ensures
        instance_of_spec(classes, c, other),
{
}

/// Whether the `j`th of `fields` has the given name and type.
pub open spec fn declares_field(fields: Seq<FieldModel>, j: int, name: Seq<char>, descriptor: TypeModel) -> bool {
    0 <= j < fields.len() && fields[j].name == name && fields[j].descriptor == descriptor
}

/// A field with a name and type among `fields` makes one such found, at or before it.
proof fn lemma_field_index_finds(fields: Seq<FieldModel>, j: int, name: Seq<char>, descriptor: TypeModel)
    requires
        declares_field(fields, j, name, descriptor),
    ensures
        field_index(fields, name, descriptor) matches Some(k) && k <= j && declares_field(fields, k, name, descriptor),
    decreases fields.len(),
{
    let rest = fields.drop_last();
    if j < fields.len() - 1 {
        assert(declares_field(rest, j, name, descriptor));
        lemma_field_index_finds(rest, j, name, descriptor);
    } else {
        lemma_field_index_found(rest, name, descriptor);
    }
}

/// The field found with a name and type has them.
proof fn lemma_field_index_found(fields: Seq<FieldModel>, name: Seq<char>, descriptor: TypeModel)
    ensures
        field_index(fields, name, descriptor) matches Some(k) ==> declares_field(fields, k, name, descriptor),
    decreases fields.len(),
{
    if fields.len() > 0 {
        lemma_field_index_found(fields.drop_last(), name, descriptor);
    }
}

/// A class's own instance field comes first: when the class at `c` declares an instance field
/// with a name and type, the slot of that field in an object of `c` is one of `c`'s own
/// slots, which follow those of its super classes, and holds a field of `c` with that name
/// and type, at or before the one given; a field of a super class with the same name is
/// hidden.
pub proof fn law_own_field_first(
    classes: Seq<ClassModel>,
    c: int,
    j: int,
    name: Seq<char>,
    descriptor: TypeModel,
)
    requires
        0 <= c < classes.len(),
        declares_field(classes[c].instance_fields, j, name, descriptor),
    ensures
        ({
            let own = classes[c].instance_fields;
            let base = instance_slots(classes, c).len() - own.len();
            field_slot(classes, c, name, descriptor) matches Some(s) && base <= s <= base + j
                && declares_field(own, s - base, name, descriptor)
        }),
{
    lemma_field_index_finds(classes[c].instance_fields, j, name, descriptor);
}

/// Looking a class up by name finds the first loaded class with that name, and finds one
/// whenever a loaded class has it.
pub proof fn law_find_name_first(classes: Seq<ClassModel>, name: Seq<char>)
    ensures
        match find_name(classes, name) {
            Some(i) => 0 <= i < classes.len() && classes[i].name == name
                && forall|k: int| 0 <= k < i ==> (#[trigger] classes[k]).name != name,
            None => forall|k: int| 0 <= k < classes.len() ==> (#[trigger] classes[k]).name != name,
        },
    decreases classes.len(),
{
    if classes.len() > 0 {
        let rest = classes.drop_last();
        law_find_name_first(rest, name);
        assert forall|k: int| 0 <= k < rest.len() implies classes[k] == rest[k] by {}
    }
}

} // verus!
