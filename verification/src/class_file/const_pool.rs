//! The entries of a class file's constant pool.

use vstd::prelude::*;

verus! {

/// The `CONSTANT_Utf8_info` structure is used to represent constant string values.
#[derive(Debug, PartialEq)]
pub struct Utf8 {
    /// The modified UTF-8 string, for more details on this specific format, see
    /// [the spec](https://docs.oracle.com/javase/specs/jvms/se8/html/jvms-4.html#jvms-4.4.7).
    pub bytes: Vec<u8>,
}

/// The `CONSTANT_Integer_info` structure is used to represent an int constant.
#[derive(Debug, PartialEq)]
pub struct Integer {
    /// The int constant.
    pub int: i32,
}

/// The `CONSTANT_Class_info` structure, used to represent a class or an interface.
#[derive(Debug, PartialEq)]
pub struct Class {
    /// An index into the `const_pool`, a valid `Const::Utf8`, representing a valid
    /// binary class or interface name encoded in internal form.
    pub name: u16,
}

/// The `CONSTANT_String_info` structure, used to represent a string constant.
#[derive(Debug, PartialEq)]
pub struct String {
    /// An index into the `const_pool`, a valid `Const::Utf8`, representing a string
    /// constant.
    pub string: u16,
}

/// The `CONSTANT_Fieldref_info` structure, used to represent a field on a class.
#[derive(Debug, PartialEq)]
pub struct FieldRef {
    /// An index into the `const_pool`, a valid `Const::Class`, representing the class
    /// that this field is defined on.
    pub class: u16,
    /// An index into the `const_pool`, a valid `Const::NameAndType`, representing the
    /// name and field signature of this method.
    pub name_and_type: u16,
}

/// The `CONSTANT_Methodref_info` structure, used to represent a method on a class.
#[derive(Debug, PartialEq)]
pub struct MethodRef {
    /// An index into the `const_pool`, a valid `Const::Class`, representing the class
    /// that this method is defined on.
    pub class: u16,
    /// An index into the `const_pool`, a valid `Const::NameAndType`, representing the
    /// name and method signature of this method.
    pub name_and_type: u16,
}

/// The `CONSTANT_NameAndType_info` structure is used to represent a field or method,
/// without indicating which class or interface type it belongs to:
#[derive(Debug, PartialEq)]
pub struct NameAndType {
    /// An index into the `const_pool`, a valid `Const::Utf8`, representing either the special
    /// method name `"<init>", or a valid unqualified name denoting a field or method.
    pub name: u16,
    /// An index into the `const_pool`, a valid `Const::Utf8`, representing a valid field or
    /// method type descriptor.
    pub descriptor: u16,
}

/// An entry in the Class File's constant pool.
///
/// For further information, see [the spec](https://docs.oracle.com/javase/specs/jvms/se8/html/jvms-4.html#jvms-4.4).
#[derive(Debug, PartialEq)]
pub enum Const {
    Utf8(Utf8),
    Integer(Integer),
    Class(Class),
    String(String),
    FieldRef(FieldRef),
    MethodRef(MethodRef),
    NameAndType(NameAndType),
}

/// The model of a constant pool entry.
pub enum ConstModel {
    Utf8(Seq<u8>),
    Integer(i32),
    Class(u16),
    String(u16),
    FieldRef(u16, u16),
    MethodRef(u16, u16),
    NameAndType(u16, u16),
}

impl View for Const {
    type V = ConstModel;

    open spec fn view(&self) -> ConstModel {
        match self {
            Const::Utf8(u) => ConstModel::Utf8(u.bytes@),
            Const::Integer(i) => ConstModel::Integer(i.int),
            Const::Class(c) => ConstModel::Class(c.name),
            Const::String(s) => ConstModel::String(s.string),
            Const::FieldRef(f) => ConstModel::FieldRef(f.class, f.name_and_type),
            Const::MethodRef(m) => ConstModel::MethodRef(m.class, m.name_and_type),
            Const::NameAndType(n) => ConstModel::NameAndType(n.name, n.descriptor),
        }
    }
}

/// The rank in which constants are turned into run-time constants: a constant may only
/// refer to constants of a lower rank.
pub open spec fn const_order(c: ConstModel) -> usize {
    match c {
        ConstModel::String(_) | ConstModel::Integer(_) => 0,
        ConstModel::Class(_) => 1,
        ConstModel::FieldRef(..) | ConstModel::MethodRef(..) => 2,
        _ => 3,
    }
}

impl Const {
    /// The number of constant pool slots this entry takes: one for every entry kind here.
    pub fn width(&self) -> (w: u16)
        ensures
            w == 1,
    {
        1
    }

    /// When reading the constants in a class file, into the runtime constant pool, we need to
    /// make sure that we've read the class file constants in a correct order.
    ///
    /// For example, a `FieldRef` or `MethodRef` references a `Class`, so the `Class` must be
    /// inserted first.
    pub fn order(&self) -> (o: usize)
        ensures
            o == const_order(self@),
    {
        match self {
            Const::String(_) | Const::Integer(_) => 0,
            Const::Class(_) => 1,
            Const::FieldRef(_) | Const::MethodRef(_) => 2,
            _ => 3,
        }
    }
}

} // verus!
