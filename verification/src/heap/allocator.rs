//! The values the heap holds: arrays of a component type, and objects of a class.

use vstd::prelude::*;

use crate::java::field_type::{FieldType, TypeModel, model_of};
use crate::java::{Double, Float, Int, Long, Reference, Value};

verus! {

/// The type of the values in an array; booleans and bytes share one.
#[derive(Clone, Copy, Debug, PartialEq, Eq, Structural)]
pub enum ArrayType {
    BooleanOrByte,
    Char,
    Short,
    Int,
    Long,
    Float,
    Double,
    Reference,
}

/// The array type that holds values of the field type `t`.
pub open spec fn array_type_of(t: TypeModel) -> ArrayType {
    match t {
        TypeModel::Boolean | TypeModel::Byte => ArrayType::BooleanOrByte,
        TypeModel::Char => ArrayType::Char,
        TypeModel::Short => ArrayType::Short,
        TypeModel::Int => ArrayType::Int,
        TypeModel::Long => ArrayType::Long,
        TypeModel::Float => ArrayType::Float,
        TypeModel::Double => ArrayType::Double,
        TypeModel::Array(_) | TypeModel::Reference(_) => ArrayType::Reference,
    }
}

/// The field type an array type reads and writes its elements as; references have an empty
/// class name.
pub open spec fn field_of(a: ArrayType) -> TypeModel {
    match a {
        ArrayType::BooleanOrByte => TypeModel::Byte,
        ArrayType::Char => TypeModel::Char,
        ArrayType::Short => TypeModel::Short,
        ArrayType::Int => TypeModel::Int,
        ArrayType::Long => TypeModel::Long,
        ArrayType::Float => TypeModel::Float,
        ArrayType::Double => TypeModel::Double,
        ArrayType::Reference => TypeModel::Reference(Seq::empty()),
    }
}

/// The width in bytes of one element of an array type.
pub open spec fn array_width(a: ArrayType) -> usize {
    match a {
        ArrayType::BooleanOrByte => 1,
        ArrayType::Char | ArrayType::Short => 2,
        ArrayType::Long | ArrayType::Double => 8,
        _ => 4,
    }
}

/// The descriptor of an array of an array type, as the class file format writes it.
pub open spec fn array_descriptor(a: ArrayType) -> Seq<char> {
    match a {
        ArrayType::BooleanOrByte => "[B"@,
        ArrayType::Char => "[C"@,
        ArrayType::Short => "[S"@,
        ArrayType::Int => "[I"@,
        ArrayType::Long => "[J"@,
        ArrayType::Float => "[F"@,
        ArrayType::Double => "[D"@,
        ArrayType::Reference => "[L"@,
    }
}

impl ArrayType {
    /// The array type that holds values of `field`.
    pub fn from(field: &FieldType) -> (a: ArrayType)
        ensures
            a == array_type_of(model_of(*field)),
    {
        match field {
            FieldType::Boolean | FieldType::Byte => ArrayType::BooleanOrByte,
            FieldType::Char => ArrayType::Char,
            FieldType::Short => ArrayType::Short,
            FieldType::Int => ArrayType::Int,
            FieldType::Long => ArrayType::Long,
            FieldType::Float => ArrayType::Float,
            FieldType::Double => ArrayType::Double,
            FieldType::Array(_) | FieldType::Reference(_) => ArrayType::Reference,
        }
    }

    /// The field type the elements are read and written as.
    pub fn to_field(&self) -> (f: FieldType)
        ensures
            model_of(f) == field_of(*self),
    {
        match self {
            ArrayType::BooleanOrByte => FieldType::Byte,
            ArrayType::Char => FieldType::Char,
            ArrayType::Short => FieldType::Short,
            ArrayType::Int => FieldType::Int,
            ArrayType::Long => FieldType::Long,
            ArrayType::Float => FieldType::Float,
            ArrayType::Double => FieldType::Double,
            ArrayType::Reference => {
                let name = String::new();
                FieldType::Reference(name)
            },
        }
    }

    /// The width in bytes of one element.
    pub fn width(&self) -> (w: usize)
        ensures
            w == array_width(*self),
    {
        match self {
            ArrayType::BooleanOrByte => 1,
            ArrayType::Char | ArrayType::Short => 2,
            ArrayType::Long | ArrayType::Double => 8,
            _ => 4,
        }
    }

    /// The descriptor of an array of this type.
    pub fn descriptor(&self) -> (d: String)
        ensures
            d@ == array_descriptor(*self),
    {
        match self {
            ArrayType::BooleanOrByte => String::from_str("[B"),
            ArrayType::Char => String::from_str("[C"),
            ArrayType::Short => String::from_str("[S"),
            ArrayType::Int => String::from_str("[I"),
            ArrayType::Long => String::from_str("[J"),
            ArrayType::Float => String::from_str("[F"),
            ArrayType::Double => String::from_str("[D"),
            ArrayType::Reference => String::from_str("[L"),
        }
    }
}

/// Whether `v` is a value that can be stored in an array of type `a`: an int for the types
/// narrower than a long, otherwise a value of the type itself.
pub open spec fn storable(a: ArrayType, v: Value) -> bool {
    match a {
        ArrayType::Long => v is Long,
        ArrayType::Float => v is Float,
        ArrayType::Double => v is Double,
        ArrayType::Reference => v is Reference,
        _ => v is Int,
    }
}

/// The element an array of type `a` holds after `v` is stored: ints are narrowed to the
/// element's width, and read back sign-extended (zero-extended for chars).
pub open spec fn stored(a: ArrayType, v: Value) -> Value {
    match a {
        ArrayType::BooleanOrByte => Value::Int(Int((v->Int_0.0 as i8) as i32)),
        ArrayType::Char => Value::Int(Int((v->Int_0.0 as u16) as i32)),
        ArrayType::Short => Value::Int(Int((v->Int_0.0 as i16) as i32)),
        _ => v,
    }
}

/// The value every element of a new array of type `a` holds.
pub open spec fn zero_element(a: ArrayType) -> Value {
    match a {
        ArrayType::Long => Value::Long(Long(0)),
        ArrayType::Float => Value::Float(Float(0)),
        ArrayType::Double => Value::Double(Double(0)),
        ArrayType::Reference => Value::Reference(Reference(0)),
        _ => Value::Int(Int(0)),
    }
}

/// The model of an array: its component type and its elements.
pub struct ArrayModel {
    pub component: ArrayType,
    pub elements: Seq<Value>,
}

/// An array object in the heap.
pub struct Array {
    component: ArrayType,
    elements: Vec<Value>,
}

impl View for Array {
    type V = ArrayModel;

    closed spec fn view(&self) -> ArrayModel {
        ArrayModel { component: self.component, elements: self.elements@ }
    }
}

/// Whether an array model is one that arrays hold: its length fits an int, and every
/// element is one its type stores.
pub open spec fn array_wf(a: ArrayModel) -> bool {
    &&& a.elements.len() <= i32::MAX
    &&& forall|i: int| 0 <= i < a.elements.len() ==> (#[trigger] a.elements[i]) == stored(
        a.component,
        a.elements[i],
    ) && storable(a.component, a.elements[i])
}

impl Array {
    /// A new array of `length` elements of type `component`, each its type's zero.
    pub fn new(component: ArrayType, length: Int) -> (a: Array)
        requires
            length.0 >= 0,
        ensures
            a@.component == component,
            a@.elements == Seq::new(length.0 as nat, |i: int| zero_element(component)),
            array_wf(a@),
    {
        let zero = match component {
            ArrayType::Long => Value::Long(Long(0)),
            ArrayType::Float => Value::Float(Float(0)),
            ArrayType::Double => Value::Double(Double(0)),
            ArrayType::Reference => Value::Reference(Reference(0)),
            _ => Value::Int(Int(0)),
        };
        let mut elements: Vec<Value> = Vec::new();
        let n = length.0 as usize;
        let mut i: usize = 0;
        while i < n
            invariant
                i <= n,
                n == length.0,
                zero == zero_element(component),
                elements@ == Seq::new(i as nat, |j: int| zero_element(component)),
            decreases n - i,
        {
            elements.push(zero);
            i += 1;
            proof {
                assert(elements@ =~= Seq::new(i as nat, |j: int| zero_element(component)));
            }
        }
        let a = Array { component, elements };
        proof {
            assert forall|i: int| 0 <= i < a@.elements.len() implies (#[trigger] a@.elements[i]) == stored(
                a@.component,
                a@.elements[i],
            ) && storable(a@.component, a@.elements[i]) by {
                assert(a@.elements[i] == zero_element(component));
            }
        }
        a
    }

    /// An array of type `component` holding `elements`, each one its type stores.
    pub fn with_elements(component: ArrayType, elements: Vec<Value>) -> (a: Array)
        requires
            array_wf(ArrayModel { component, elements: elements@ }),
        ensures
            a@ == (ArrayModel { component, elements: elements@ }),
    {
        Array { component, elements }
    }

    /// The array's component type.
    pub fn component(&self) -> (c: ArrayType)
        ensures
            c == self@.component,
    {
        self.component
    }

    /// The number of elements.
    pub fn length(&self) -> (n: Int)
        requires
            array_wf(self@),
        ensures
            n.0 == self@.elements.len(),
    {
        Int(self.elements.len() as i32)
    }

    /// Store `value` at `index`, narrowed to the element type.
    pub fn set_element(&mut self, index: Int, value: Value)
        requires
            array_wf(old(self)@),
            0 <= index.0 < old(self)@.elements.len(),
            storable(old(self)@.component, value),
        ensures
            final(self)@ == (ArrayModel {
                elements: old(self)@.elements.update(index.0 as int, stored(old(self)@.component, value)),
                ..old(self)@
            }),
            array_wf(final(self)@),
    {
        let element = match self.component {
            ArrayType::BooleanOrByte => Value::Int(Int((value.as_int().0 as i8) as i32)),
            ArrayType::Char => Value::Int(Int((value.as_int().0 as u16) as i32)),
            ArrayType::Short => Value::Int(Int((value.as_int().0 as i16) as i32)),
            _ => value,
        };
        assert(element == stored(self.component, element) && storable(self.component, element)) by {
            if self.component == ArrayType::BooleanOrByte || self.component == ArrayType::Char
                || self.component == ArrayType::Short {
                let v = value->Int_0.0;
                assert(((v as i8) as i32) as i8 == v as i8) by (bit_vector);
                assert(((v as u16) as i32) as u16 == v as u16) by (bit_vector);
                assert(((v as i16) as i32) as i16 == v as i16) by (bit_vector);
            }
        }
        self.elements.set(index.0 as usize, element);
        proof {
            let a = final(self)@;
            assert forall|i: int| 0 <= i < a.elements.len() implies (#[trigger] a.elements[i]) == stored(
                a.component,
                a.elements[i],
            ) && storable(a.component, a.elements[i]) by {
                if i != index.0 {
                    assert(a.elements[i] == old(self)@.elements[i]);
                }
            }
        }
    }

    /// The element at `index`.
    pub fn get_element(&self, index: Int) -> (v: Value)
        requires
            0 <= index.0 < self@.elements.len(),
        ensures
            v == self@.elements[index.0 as int],
    {
        self.elements[index.0 as usize]
    }
}

/// The model of an object: the index of its class in the method area, and its fields' values.
pub struct ObjectModel {
    pub class: usize,
    pub fields: Seq<Value>,
}

/// An object in the heap.
pub struct Object {
    class: usize,
    fields: Vec<Value>,
}

impl View for Object {
    type V = ObjectModel;

    closed spec fn view(&self) -> ObjectModel {
        ObjectModel { class: self.class, fields: self.fields@ }
    }
}

impl Object {
    /// An object of the class at `class` in the method area, with the given field values.
    pub fn new(class: usize, fields: Vec<Value>) -> (o: Object)
        ensures
            o@ == (ObjectModel { class, fields: fields@ }),
    {
        Object { class, fields }
    }

    /// The index of the object's class in the method area.
    pub fn class(&self) -> (c: usize)
        ensures
            c == self@.class,
    {
        self.class
    }

    /// The number of the object's field slots.
    pub fn field_count(&self) -> (n: usize)
        ensures
            n == self@.fields.len(),
    {
        self.fields.len()
    }

    /// The value of the field in slot `slot`.
    pub fn get_field(&self, slot: usize) -> (v: Value)
        requires
            slot < self@.fields.len(),
        ensures
            v == self@.fields[slot as int],
    {
        self.fields[slot]
    }

    /// Set the value of the field in slot `slot`.
    pub fn set_field(&mut self, slot: usize, value: Value)
        requires
            slot < old(self)@.fields.len(),
        ensures
            final(self)@ == (ObjectModel { fields: old(self)@.fields.update(slot as int, value), ..old(self)@ }),
    {
        self.fields.set(slot, value);
    }
}

/// The array `a` after the writes of `writes`, in turn, each of a value at an index, as
/// `set_element` makes them.
pub open spec fn written(a: ArrayModel, writes: Seq<(int, Value)>) -> ArrayModel
    decreases writes.len(),
{
    if writes.len() == 0 {
        a
    } else {
        let before = written(a, writes.drop_last());
        let w = writes.last();
        ArrayModel { elements: before.elements.update(w.0, stored(before.component, w.1)), ..before }
    }
}

/// Writing elements never changes an array: after any writes at indexes within it, as
/// `set_element` takes them, its length, and so what `length` gives, and its element type are
/// those it was made with.
pub proof fn law_writes_keep_length(a: ArrayModel, writes: Seq<(int, Value)>)
    requires
        forall|k: int| 0 <= k < writes.len() ==> 0 <= #[trigger] writes[k].0 < a.elements.len(),
    ensures
        written(a, writes).elements.len() == a.elements.len(),
        written(a, writes).component == a.component,
    decreases writes.len(),
{
    if writes.len() > 0 {
        let rest = writes.drop_last();
        assert forall|k: int| 0 <= k < rest.len() implies 0 <= #[trigger] rest[k].0 < a.elements.len() by {
            assert(rest[k] == writes[k]);
        }
        law_writes_keep_length(a, rest);
        assert(writes[writes.len() - 1] == writes.last());
    }
}

} // verus!
