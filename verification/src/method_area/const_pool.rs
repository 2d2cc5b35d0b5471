//! The run-time constant pool of a class: constants and symbolic references to other classes,
//! fields, methods and strings.

use std::collections::HashMap;

use vstd::prelude::*;
use vstd::utf8::{decode_utf8, valid_utf8};

use crate::binary::copy_bytes;
use crate::class_file::{ClassFile, pool_model};
use crate::class_file::const_pool as cp;
use crate::class_file::const_pool::ConstModel;
use crate::collection::once::Once;
use crate::java::field_type::{TypeModel, field_descriptor_type};
use crate::java::method_type::{MethodModel, MethodStep, parse_method};
use crate::java::{FieldType, MethodType, Reference};
use crate::text::{push_replaced, replace_char, string_from_utf8};

verus! {

broadcast use vstd::std_specs::hash::group_hash_axioms;

/// The key of a class: its binary name, with `.` between packages.
pub struct ClassKey {
    pub name: String,
}

/// The key of a field: its class, name and type.
pub struct FieldKey {
    pub class: String,
    pub name: String,
    pub descriptor: FieldType,
}

/// The key of a method: its class, name and type.
pub struct MethodKey {
    pub class: String,
    pub name: String,
    pub descriptor: MethodType,
}

/// A symbolic reference is a resolvable reference to another object in the method area, or to a
/// java value.
pub struct SymbolicReference<K, V> {
    pub const_key: K,
    pub resolved: Once<V>,
}

impl<K, V> SymbolicReference<K, V> {
    /// A reference to what `const_key` names, not yet resolved.
    pub fn new(const_key: K) -> (r: Self)
        ensures
            r.const_key == const_key,
            r.resolved@ is None,
    {
        SymbolicReference { const_key, resolved: Once::new() }
    }

    /// What the reference refers to, resolving it with `f` applied to its key if it was not
    /// resolved yet; `f` runs only then.
    pub fn resolve<F: FnOnce(&K) -> V>(&mut self, f: F) -> (v: &V)
        requires
            old(self).resolved@ is None ==> f.requires((&old(self).const_key,)),
        ensures
            final(self).const_key == old(self).const_key,
            final(self).resolved@ == Some(*v),
            old(self).resolved@ matches Some(r) ==> *v == r,
            old(self).resolved@ is None ==> f.ensures((&old(self).const_key,), *v),
    {
        if self.resolved.get().is_none() {
            let v = f(&self.const_key);
            self.resolved.get_or_set(v)
        } else {
            match self.resolved.get() {
                Some(v) => v,
                None => unreached(),
            }
        }
    }
}

/// The model of an entry of a run-time constant pool: what it names, resolved or not.
pub enum RuntimeConst {
    /// A class, by name.
    Class(Seq<char>),
    /// A field: the name of its class, its name and its type.
    Field(Seq<char>, Seq<char>, TypeModel),
    /// A method: the name of its class, its name and its type.
    Method(Seq<char>, Seq<char>, MethodModel),
    /// A string constant.
    String(Seq<char>),
    Integer(i32),
    Long(i64),
}

/// An entry of a run-time constant pool.
pub enum Const {
    Class(SymbolicReference<ClassKey, usize>),
    Field(SymbolicReference<FieldKey, usize>),
    Method(SymbolicReference<MethodKey, usize>),
    String(SymbolicReference<String, Reference>),
    Integer(i32),
    Long(i64),
}

impl View for Const {
    type V = RuntimeConst;

    open spec fn view(&self) -> RuntimeConst {
        match self {
            Const::Class(r) => RuntimeConst::Class(r.const_key.name@),
            Const::Field(r) => RuntimeConst::Field(
                r.const_key.class@,
                r.const_key.name@,
                r.const_key.descriptor@,
            ),
            Const::Method(r) => RuntimeConst::Method(
                r.const_key.class@,
                r.const_key.name@,
                r.const_key.descriptor@,
            ),
            Const::String(r) => RuntimeConst::String(r.const_key@),
            Const::Integer(i) => RuntimeConst::Integer(*i),
            Const::Long(l) => RuntimeConst::Long(*l),
        }
    }
}

/// The run-time constant pool of a class is a collection of constants and symbolic references to
/// other data in the JVM.
pub struct ConstPool {
    pub pool: HashMap<u16, Const>,
}

impl View for ConstPool {
    type V = Map<u16, RuntimeConst>;

    open spec fn view(&self) -> Map<u16, RuntimeConst> {
        self.pool@.map_values(|c: Const| c@)
    }
}

impl ConstPool {
    /// The run-time constant pool of a class file: its integer, string, class, field and method
    /// entries, at the same indices, with names and descriptors looked up.
    pub fn new(file: &ClassFile) -> (pool: Self)
        requires
            pool_convertible(file@.const_pool),
        ensures
            pool@ == runtime_pool(file@.const_pool),
    {
        let ghost p = file@.const_pool;
        let mut pool = ConstPool { pool: HashMap::new() };
        for (key, val) in it: file.const_pool.iter()
            invariant
                p == file@.const_pool,
                p == pool_model(file.const_pool@),
                pool_convertible(p),
                forall|j: int|
                    0 <= j < it.seq().len() ==> #[trigger] file.const_pool@.contains_key(*it.seq()[j].0)
                        && file.const_pool@[*it.seq()[j].0] == *it.seq()[j].1,
                forall|k: u16|
                    #[trigger] file.const_pool@.contains_key(k) ==> exists|j: int|
                        0 <= j < it.seq().len() && *it.seq()[j].0 == k,
                forall|k: u16|
                    #[trigger] pool@.contains_key(k) ==> runtime_pool(p).contains_key(k)
                        && pool@[k] == runtime_pool(p)[k],
                forall|j: int|
                    0 <= j < it.index() ==> #[trigger] runtime_pool(p).contains_key(*it.seq()[j].0)
                        ==> pool@.contains_key(*it.seq()[j].0),
        {
            let ghost before = pool@;
            let ghost j = it.index();
            proof {
                assert(file.const_pool@.contains_key(*key));
                assert(file.const_pool@[*key] == *val);
                assert(p[*key] == val@);
                assert(p.contains_key(*key));
            }
            let converted = runtime_const(file, val);
            match converted {
                Some(c) => {
                    let ghost cv = c@;
                    pool.pool.insert(*key, c);
                    proof {
                        assert(pool@ =~= before.insert(*key, cv));
                        assert(runtime_pool(p).contains_key(*key));
                        assert(runtime_pool(p)[*key] == cv);
                    }
                },
                None => {
                    proof {
                        assert(!runtime_pool(p).contains_key(*key));
                    }
                },
            }
        }
        proof {
            assert(pool@ =~= runtime_pool(p));
        }
        pool
    }

    /// The entry at `index`, which must hold one.
    pub fn get_const(&self, index: u16) -> (c: &Const)
        requires
            self@.contains_key(index),
        ensures
            c@ == self@[index],
    {
        self.pool.get(&index).unwrap()
    }

    /// The class reference at `index`, which must hold one.
    pub fn get_class(&self, index: u16) -> (c: &SymbolicReference<ClassKey, usize>)
        requires
            self@.contains_key(index),
            self@[index] is Class,
        ensures
            RuntimeConst::Class(c.const_key.name@) == self@[index],
    {
        match self.pool.get(&index).unwrap() {
            Const::Class(reference) => reference,
            _ => unreached(),
        }
    }

    /// The method reference at `index`, which must hold one.
    pub fn get_method(&self, index: u16) -> (m: &SymbolicReference<MethodKey, usize>)
        requires
            self@.contains_key(index),
            self@[index] is Method,
        ensures
            RuntimeConst::Method(m.const_key.class@, m.const_key.name@, m.const_key.descriptor@) == self@[index],
    {
        match self.pool.get(&index).unwrap() {
            Const::Method(reference) => reference,
            _ => unreached(),
        }
    }

    /// The field reference at `index`, which must hold one.
    pub fn get_field(&self, index: u16) -> (f: &SymbolicReference<FieldKey, usize>)
        requires
            self@.contains_key(index),
            self@[index] is Field,
        ensures
            RuntimeConst::Field(f.const_key.class@, f.const_key.name@, f.const_key.descriptor@) == self@[index],
    {
        match self.pool.get(&index).unwrap() {
            Const::Field(reference) => reference,
            _ => unreached(),
        }
    }
}

// ---------------------------------------------------------------------------------------------
// Building the run-time constant pool from a class file's constant pool.
// ---------------------------------------------------------------------------------------------

/// Whether the entry at `index` of `pool` is a string constant whose bytes are valid UTF-8.
pub open spec fn has_text(pool: Map<u16, ConstModel>, index: u16) -> bool {
    &&& pool.contains_key(index)
    &&& pool[index] matches ConstModel::Utf8(bs) && valid_utf8(bs)
}

/// The text of the string constant at `index` of `pool`.
pub open spec fn utf8_text(pool: Map<u16, ConstModel>, index: u16) -> Seq<char> {
    match pool[index] {
        ConstModel::Utf8(bs) => decode_utf8(bs),
        _ => Seq::empty(),
    }
}

/// A class name in internal form (`java/lang/Object`) as a binary name (`java.lang.Object`).
pub open spec fn binary_name(s: Seq<char>) -> Seq<char> {
    replace_char(s, '/', '.')
}

/// The name index of the class entry at `index` of `pool`.
pub open spec fn class_name_index(pool: Map<u16, ConstModel>, index: u16) -> u16 {
    match pool[index] {
        ConstModel::Class(n) => n,
        _ => 0,
    }
}

/// Whether the entry at `index` of `pool` is a class whose name is a string constant.
pub open spec fn names_class(pool: Map<u16, ConstModel>, index: u16) -> bool {
    &&& pool.contains_key(index)
    &&& pool[index] is Class
    &&& has_text(pool, class_name_index(pool, index))
}

/// The name and descriptor indices of the name-and-type entry at `index` of `pool`.
pub open spec fn name_and_type(pool: Map<u16, ConstModel>, index: u16) -> (u16, u16) {
    match pool[index] {
        ConstModel::NameAndType(n, d) => (n, d),
        _ => (0, 0),
    }
}

/// Whether the entry at `index` of `pool` is a name and type whose name and descriptor are
/// string constants.
pub open spec fn names_member(pool: Map<u16, ConstModel>, index: u16) -> bool {
    &&& pool.contains_key(index)
    &&& pool[index] is NameAndType
    &&& has_text(pool, name_and_type(pool, index).0)
    &&& has_text(pool, name_and_type(pool, index).1)
}

/// The descriptor text of the member named at `index` of `pool`.
pub open spec fn member_descriptor(pool: Map<u16, ConstModel>, index: u16) -> Seq<char> {
    utf8_text(pool, name_and_type(pool, index).1)
}

/// Whether the entry `c` of `pool` can be turned into a run-time constant; the other entries
/// stop the program.
pub open spec fn entry_convertible(pool: Map<u16, ConstModel>, c: ConstModel) -> bool {
    match c {
        ConstModel::String(s) => has_text(pool, s),
        ConstModel::Class(n) => has_text(pool, n),
        ConstModel::FieldRef(ci, nti) => {
            &&& names_class(pool, ci)
            &&& names_member(pool, nti)
            &&& field_descriptor_type(member_descriptor(pool, nti)) is Some
        },
        ConstModel::MethodRef(ci, nti) => {
            &&& names_class(pool, ci)
            &&& names_member(pool, nti)
            &&& parse_method(member_descriptor(pool, nti)) is Parsed
        },
        _ => true,
    }
}

/// Whether every entry of `pool` can be turned into a run-time constant.
pub open spec fn pool_convertible(pool: Map<u16, ConstModel>) -> bool {
    forall|k: u16| #[trigger] pool.contains_key(k) ==> entry_convertible(pool, pool[k])
}

/// The run-time constant for the entry `c` of `pool`: integers, strings, classes, fields and
/// methods have one, the other entries none.
pub open spec fn runtime_entry(pool: Map<u16, ConstModel>, c: ConstModel) -> Option<RuntimeConst> {
    match c {
        ConstModel::Integer(i) => Some(RuntimeConst::Integer(i)),
        ConstModel::String(s) => Some(RuntimeConst::String(utf8_text(pool, s))),
        ConstModel::Class(n) => Some(RuntimeConst::Class(binary_name(utf8_text(pool, n)))),
        ConstModel::FieldRef(ci, nti) => Some(
            RuntimeConst::Field(
                binary_name(utf8_text(pool, class_name_index(pool, ci))),
                utf8_text(pool, name_and_type(pool, nti).0),
                field_descriptor_type(member_descriptor(pool, nti))->Some_0,
            ),
        ),
        ConstModel::MethodRef(ci, nti) => Some(
            RuntimeConst::Method(
                binary_name(utf8_text(pool, class_name_index(pool, ci))),
                utf8_text(pool, name_and_type(pool, nti).0),
                parse_method(member_descriptor(pool, nti))->Parsed_0,
            ),
        ),
        _ => None,
    }
}

/// The run-time constant pool of a class file's constant pool: each entry that has a run-time
/// constant, at the same index.
pub open spec fn runtime_pool(pool: Map<u16, ConstModel>) -> Map<u16, RuntimeConst> {
    Map::new(
        |k: u16| pool.contains_key(k) && runtime_entry(pool, pool[k]) is Some,
        |k: u16| runtime_entry(pool, pool[k])->Some_0,
    )
}

/// The text of the string constant at `index` of the class file's constant pool.
pub(crate) fn text_at(file: &ClassFile, index: u16) -> (s: String)
    requires
        has_text(file@.const_pool, index),
    ensures
        s@ == utf8_text(file@.const_pool, index),
{
    let entry = file.get_const_utf8(index);
    let bytes = copy_bytes(entry.bytes.as_slice(), 0, entry.bytes.len());
    proof {
        assert(bytes@ =~= entry.bytes@);
    }
    match string_from_utf8(bytes) {
        Some(s) => s,
        None => unreached(),
    }
}

/// The binary name of the class named by the string constant at `index`.
pub(crate) fn class_name_at(file: &ClassFile, index: u16) -> (s: String)
    requires
        has_text(file@.const_pool, index),
    ensures
        s@ == binary_name(utf8_text(file@.const_pool, index)),
{
    let text = text_at(file, index);
    let mut name = String::new();
    push_replaced(&mut name, &text, '/', '.');
    proof {
        assert(name@ =~= binary_name(utf8_text(file@.const_pool, index)));
    }
    name
}

/// The run-time constant for the entry `con` of the class file's constant pool, if it has one.
fn runtime_const(file: &ClassFile, con: &cp::Const) -> (res: Option<Const>)
    requires
        entry_convertible(file@.const_pool, con@),
    ensures
        match runtime_entry(file@.const_pool, con@) {
            Some(r) => res matches Some(c) && c@ == r,
            None => res is None,
        },
{
    let ghost pool = file@.const_pool;
    match con {
        cp::Const::Integer(integer) => Some(Const::Integer(integer.int)),
        cp::Const::String(string) => {
            let text = text_at(file, string.string);
            Some(Const::String(SymbolicReference::new(text)))
        },
        cp::Const::Class(class) => {
            let name = class_name_at(file, class.name);
            Some(Const::Class(SymbolicReference::new(ClassKey { name })))
        },
        cp::Const::FieldRef(field) => {
            let class = file.get_const_class(field.class);
            let class_name = class_name_at(file, class.name);
            let name_and_type = file.get_const_name_and_type(field.name_and_type);
            let name = text_at(file, name_and_type.name);
            let descriptor = text_at(file, name_and_type.descriptor);
            let descriptor = match FieldType::from_descriptor(descriptor.as_str()) {
                Ok(t) => t,
                Err(_) => unreached(),
            };
            Some(Const::Field(SymbolicReference::new(FieldKey { class: class_name, name, descriptor })))
        },
        cp::Const::MethodRef(method) => {
            let class = file.get_const_class(method.class);
            let class_name = class_name_at(file, class.name);
            let name_and_type = file.get_const_name_and_type(method.name_and_type);
            let name = text_at(file, name_and_type.name);
            let descriptor = text_at(file, name_and_type.descriptor);
            let descriptor = match MethodType::from_descriptor(descriptor.as_str()) {
                Ok(t) => t,
                Err(_) => unreached(),
            };
            Some(Const::Method(SymbolicReference::new(MethodKey { class: class_name, name, descriptor })))
        },
        _ => None,
    }
}

/// The text of the string constant at `index` of the class file's constant pool, when it is
/// one holding valid UTF-8.
pub(crate) fn text_of(file: &ClassFile, index: u16) -> (res: Option<String>)
    ensures
        match res {
            Some(s) => has_text(file@.const_pool, index) && s@ == utf8_text(file@.const_pool, index),
            None => !has_text(file@.const_pool, index),
        },
{
    match file.const_pool.get(&index) {
        Some(cp::Const::Utf8(entry)) => {
            let bytes = copy_bytes(entry.bytes.as_slice(), 0, entry.bytes.len());
            proof {
                assert(bytes@ =~= entry.bytes@);
            }
            string_from_utf8(bytes)
        },
        _ => None,
    }
}

/// Whether the class file's constant pool has a class entry at `index` whose name is a string
/// constant.
pub fn names_class_at(file: &ClassFile, index: u16) -> (b: bool)
    ensures
        b == names_class(file@.const_pool, index),
{
    match file.const_pool.get(&index) {
        Some(cp::Const::Class(class)) => text_of(file, class.name).is_some(),
        _ => false,
    }
}

/// The descriptor text of the name-and-type entry at `index`, when the pool has one whose name
/// and descriptor are string constants.
fn member_ok(file: &ClassFile, index: u16) -> (res: Option<String>)
    ensures
        match res {
            Some(d) => names_member(file@.const_pool, index) && d@ == member_descriptor(file@.const_pool, index),
            None => !names_member(file@.const_pool, index),
        },
{
    match file.const_pool.get(&index) {
        Some(cp::Const::NameAndType(nt)) => {
            if text_of(file, nt.name).is_none() {
                return None;
            }
            text_of(file, nt.descriptor)
        },
        _ => None,
    }
}

/// Whether the entry `con` of the class file's constant pool can be turned into a run-time
/// constant.
fn entry_ok(file: &ClassFile, con: &cp::Const) -> (b: bool)
    ensures
        b == entry_convertible(file@.const_pool, con@),
{
    match con {
        cp::Const::String(string) => text_of(file, string.string).is_some(),
        cp::Const::Class(class) => text_of(file, class.name).is_some(),
        cp::Const::FieldRef(field) => {
            if !names_class_at(file, field.class) {
                return false;
            }
            match member_ok(file, field.name_and_type) {
                Some(d) => FieldType::from_descriptor(d.as_str()).is_ok(),
                None => false,
            }
        },
        cp::Const::MethodRef(method) => {
            if !names_class_at(file, method.class) {
                return false;
            }
            match member_ok(file, method.name_and_type) {
                Some(d) => MethodType::from_descriptor(d.as_str()).is_ok(),
                None => false,
            }
        },
        _ => true,
    }
}

/// Whether every entry of the class file's constant pool can be turned into a run-time
/// constant.
pub fn pool_ok(file: &ClassFile) -> (b: bool)
    ensures
        b == pool_convertible(file@.const_pool),
{
    let ghost p = file@.const_pool;
    for (key, val) in it: file.const_pool.iter()
        invariant
            p == file@.const_pool,
            p == pool_model(file.const_pool@),
            forall|j: int|
                0 <= j < it.seq().len() ==> #[trigger] file.const_pool@.contains_key(*it.seq()[j].0)
                    && file.const_pool@[*it.seq()[j].0] == *it.seq()[j].1,
            forall|k: u16|
                #[trigger] p.contains_key(k) ==> entry_convertible(p, p[k]) || exists|j: int|
                    it.index() <= j < it.seq().len() && *it.seq()[j].0 == k,
    {
        proof {
            assert(file.const_pool@.contains_key(*key));
            assert(file.const_pool@[*key] == *val);
            assert(p[*key] == val@);
        }
        if !entry_ok(file, val) {
            proof {
                assert(p.contains_key(*key));
            }
            return false;
        }
    }
    true
}

} // verus!
