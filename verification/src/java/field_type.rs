//! Field types and their descriptors.

use vstd::prelude::*;

use crate::java::type_parser::{ParseError, TypeParser, parse_type, Step};
use crate::java::value::{Double, Float, Int, Long, Reference, Value};
use crate::text::{copy_string, push_char, push_replaced, replace_char};

verus! {

/// The mathematical model of a field type: a class name is its sequence of characters.
pub enum TypeModel {
    Boolean,
    Byte,
    Char,
    Short,
    Int,
    Long,
    Float,
    Double,
    Reference(Seq<char>),
    Array(Box<TypeModel>),
}

/// A representation of the type of a class, instance or local variable.
///
/// For more information, see
/// [the JVM spec](https://docs.oracle.com/javase/specs/jvms/se8/html/jvms-4.html#jvms-4.3.2).
#[derive(PartialEq, Eq, Debug, Hash)]
pub enum FieldType {
    /// The type `boolean`, true or false.
    Boolean,
    /// The type `byte`, a signed byte.
    Byte,
    /// The type `char`, a UTF-16 character.
    Char,
    /// The type `short`, a signed short.
    Short,
    /// The type `int`, an integer.
    Int,
    /// The type `long`, a 64 bit signed integer.
    Long,
    /// The type `float`, a single-precision floating-point value.
    Float,
    /// The type `double`, a double-precision floating-point value.
    Double,
    /// An instance of a class, named by `String`.
    Reference(String),
    /// A one dimensional array, of the given field type.
    Array(Box<FieldType>),
}

/// The model of a field type.
pub open spec fn model_of(t: FieldType) -> TypeModel
    decreases t,
{
    match t {
        FieldType::Boolean => TypeModel::Boolean,
        FieldType::Byte => TypeModel::Byte,
        FieldType::Char => TypeModel::Char,
        FieldType::Short => TypeModel::Short,
        FieldType::Int => TypeModel::Int,
        FieldType::Long => TypeModel::Long,
        FieldType::Float => TypeModel::Float,
        FieldType::Double => TypeModel::Double,
        FieldType::Reference(name) => TypeModel::Reference(name@),
        FieldType::Array(component) => TypeModel::Array(Box::new(model_of(*component))),
    }
}

impl View for FieldType {
    type V = TypeModel;

    open spec fn view(&self) -> TypeModel {
        model_of(*self)
    }
}

/// The descriptor of a field type: `L` name `;` for classes, with `.` written as `/`,
/// and `[` before the component for arrays.
pub open spec fn type_descriptor(t: TypeModel) -> Seq<char>
    decreases t,
{
    match t {
        TypeModel::Boolean => seq!['Z'],
        TypeModel::Byte => seq!['B'],
        TypeModel::Char => seq!['C'],
        TypeModel::Short => seq!['S'],
        TypeModel::Int => seq!['I'],
        TypeModel::Long => seq!['J'],
        TypeModel::Float => seq!['F'],
        TypeModel::Double => seq!['D'],
        TypeModel::Reference(name) => seq!['L'] + replace_char(name, '.', '/') + seq![';'],
        TypeModel::Array(component) => seq!['['] + type_descriptor(*component),
    }
}

/// The class name a type involves, if any: that of a class type or of an array's
/// innermost component.
pub open spec fn type_class_name(t: TypeModel) -> Option<Seq<char>>
    decreases t,
{
    match t {
        TypeModel::Reference(name) => Some(name),
        TypeModel::Array(component) => type_class_name(*component),
        _ => None,
    }
}

/// Width in bytes of a value of the type in an object.
pub open spec fn type_width(t: TypeModel) -> usize {
    match t {
        TypeModel::Boolean | TypeModel::Byte => 1,
        TypeModel::Char | TypeModel::Short => 2,
        TypeModel::Long | TypeModel::Double => 8,
        _ => 4,
    }
}

/// The array component code of a type: 0 for boolean and byte, 1 char, 2 short, 3 int,
/// 4 long, 5 float, 6 double, 7 references and arrays.
pub open spec fn type_arr_comp(t: TypeModel) -> usize {
    match t {
        TypeModel::Boolean | TypeModel::Byte => 0,
        TypeModel::Char => 1,
        TypeModel::Short => 2,
        TypeModel::Int => 3,
        TypeModel::Long => 4,
        TypeModel::Float => 5,
        TypeModel::Double => 6,
        TypeModel::Reference(_) | TypeModel::Array(_) => 7,
    }
}

/// The zero value of a field of the type.
pub open spec fn type_zero_value(t: TypeModel) -> Value {
    match t {
        TypeModel::Long => Value::Long(Long(0)),
        TypeModel::Float => Value::Float(Float(0)),
        TypeModel::Double => Value::Double(Double(0)),
        TypeModel::Reference(_) | TypeModel::Array(_) => Value::Reference(Reference(0)),
        _ => Value::Int(Int(0)),
    }
}

/// The field type that a whole descriptor denotes, if it denotes one.
pub open spec fn field_descriptor_type(s: Seq<char>) -> Option<TypeModel> {
    match parse_type(s, 0) {
        Step::Parsed(t, p) => if p == s.len() { Some(t) } else { None },
        _ => None,
    }
}

/// Parsing a field descriptor stops, as the original does, on a non-ASCII character where a
/// type should begin.
pub open spec fn field_descriptor_aborts(s: Seq<char>) -> bool {
    parse_type(s, 0) is Aborts
}

impl Clone for FieldType {
    fn clone(&self) -> (res: Self)
        ensures
            res@ == self@,
    {
        self.duplicate()
    }
}

impl FieldType {
    /// Parse the `FieldType` instance from a field descriptor.
    ///
    /// For further reference, see [the JVM spec](https://docs.oracle.com/javase/specs/jvms/se8/html/jvms-4.html#jvms-4.3.2).
    pub fn from_descriptor(descriptor: &str) -> (res: Result<Self, ParseError>)
        ensures
            match field_descriptor_type(descriptor@) {
                Some(t) => res matches Ok(ft) && ft@ == t,
                None => res matches Err(e) && e@ == descriptor@,
            },
    {
        let mut parser = TypeParser::new(descriptor);
        let field_type = parser.next()?;
        parser.expect_end()?;
        Ok(field_type)
    }

    /// Create the zero value for the given field.
    pub fn zero_value(&self) -> (v: Value)
        ensures
            v == type_zero_value(self@),
    {
        match self {
            FieldType::Long => Value::Long(Long(0)),
            FieldType::Float => Value::Float(Float(0)),
            FieldType::Double => Value::Double(Double(0)),
            FieldType::Reference(_) | FieldType::Array(_) => Value::Reference(Reference(0)),
            _ => Value::Int(Int(0)),
        }
    }

    /// A field type might involve (at most 1) class names in the signature.
    ///
    /// For class loading we need to be aware of any class names in the type.
    pub fn class_name(&self) -> (res: Option<String>)
        ensures
            match type_class_name(self@) {
                Some(n) => res matches Some(s) && s@ == n,
                None => res is None,
            },
        decreases self,
    {
        match self {
            FieldType::Reference(class_name) => Some(copy_string(class_name)),
            FieldType::Array(field_type) => field_type.class_name(),
            _ => None,
        }
    }

    /// Append this type's descriptor to `out`.
    fn push_descriptor(&self, out: &mut String)
        ensures
            final(out)@ == old(out)@ + type_descriptor(self@),
        decreases self,
    {
        match self {
            FieldType::Boolean => push_char(out, 'Z'),
            FieldType::Byte => push_char(out, 'B'),
            FieldType::Char => push_char(out, 'C'),
            FieldType::Short => push_char(out, 'S'),
            FieldType::Int => push_char(out, 'I'),
            FieldType::Long => push_char(out, 'J'),
            FieldType::Float => push_char(out, 'F'),
            FieldType::Double => push_char(out, 'D'),
            FieldType::Reference(class_name) => {
                push_char(out, 'L');
                push_replaced(out, class_name, '.', '/');
                push_char(out, ';');
                proof {
                    assert(out@ =~= old(out)@ + type_descriptor(self@));
                }
            },
            FieldType::Array(component) => {
                push_char(out, '[');
                component.push_descriptor(out);
                proof {
                    assert(out@ =~= old(out)@ + type_descriptor(self@));
                }
            },
        }
    }

    /// The descriptor of this type.
    pub fn descriptor(&self) -> (res: String)
        ensures
            res@ == type_descriptor(self@),
    {
        let mut out = String::new();
        self.push_descriptor(&mut out);
        proof {
            assert(out@ =~= type_descriptor(self@));
        }
        out
    }

    /// The width in bytes of a value of this type within an object.
    pub fn width(&self) -> (w: usize)
        ensures
            w == type_width(self@),
    {
        match self {
            FieldType::Boolean | FieldType::Byte => 1,
            FieldType::Char | FieldType::Short => 2,
            FieldType::Long | FieldType::Double => 8,
            _ => 4,
        }
    }

    /// Value to match for array component types.
    pub fn arr_comp(&self) -> (c: usize)
        ensures
            c == type_arr_comp(self@),
    {
        match self {
            FieldType::Boolean | FieldType::Byte => 0,
            FieldType::Char => 1,
            FieldType::Short => 2,
            FieldType::Int => 3,
            FieldType::Long => 4,
            FieldType::Float => 5,
            FieldType::Double => 6,
            FieldType::Reference(_) | FieldType::Array(_) => 7,
        }
    }

    /// A copy of this type.
    pub fn duplicate(&self) -> (res: FieldType)
        ensures
            res@ == self@,
        decreases self,
    {
        match self {
            FieldType::Boolean => FieldType::Boolean,
            FieldType::Byte => FieldType::Byte,
            FieldType::Char => FieldType::Char,
            FieldType::Short => FieldType::Short,
            FieldType::Int => FieldType::Int,
            FieldType::Long => FieldType::Long,
            FieldType::Float => FieldType::Float,
            FieldType::Double => FieldType::Double,
            FieldType::Reference(name) => FieldType::Reference(copy_string(name)),
            FieldType::Array(component) => FieldType::Array(Box::new(component.duplicate())),
        }
    }

    /// Whether two types are the same type.
    pub fn same_as(&self, other: &FieldType) -> (res: bool)
        ensures
            res == (self@ == other@),
        decreases self,
    {
        let r = match self {
            FieldType::Boolean => matches!(other, FieldType::Boolean),
            FieldType::Byte => matches!(other, FieldType::Byte),
            FieldType::Char => matches!(other, FieldType::Char),
            FieldType::Short => matches!(other, FieldType::Short),
            FieldType::Int => matches!(other, FieldType::Int),
            FieldType::Long => matches!(other, FieldType::Long),
            FieldType::Float => matches!(other, FieldType::Float),
            FieldType::Double => matches!(other, FieldType::Double),
            FieldType::Reference(a) => match other {
                FieldType::Reference(b) => (*a).eq(b),
                _ => false,
            },
            FieldType::Array(a) => match other {
                FieldType::Array(b) => {
                    let r = a.same_as(b);
                    proof {
                        if r {
                            assert(self@ == other@);
                        } else {
                            assert(self@ != other@) by {
                                if self@ == other@ {
                                    assert(self@->Array_0 == other@->Array_0);
                                }
                            }
                        }
                    }
                    r
                },
                _ => false,
            },
        };
        r
    }
}

} // verus!
