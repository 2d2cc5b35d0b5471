//! Value types are the computational types that are used at runtime in a JVM.
//!
//! Floating-point values are held by their IEEE-754 bit patterns: the interpreter only
//! moves them around and the bits are exactly what the class file and the heap store.

use vstd::prelude::*;

verus! {

/// Int is the 32-bit signed integer in the JVM.
#[derive(Clone, Copy, Debug, PartialEq, Eq, Structural)]
pub struct Int(pub i32);

/// Long is the 64-bit signed integer in the JVM.
#[derive(Clone, Copy, Debug, PartialEq, Eq, Structural)]
pub struct Long(pub i64);

/// Float is the 32-bit floating-point number in the JVM, held by its bit pattern.
#[derive(Clone, Copy, Debug, PartialEq, Eq, Structural)]
pub struct Float(pub u32);

/// Double is the 64-bit floating-point number in the JVM, held by its bit pattern.
#[derive(Clone, Copy, Debug, PartialEq, Eq, Structural)]
pub struct Double(pub u64);

/// Reference is the reference type in the JVM. References are 32-bit unsigned integers
/// that key into the heap; 0 is `null`.
#[derive(Clone, Copy, Debug, PartialEq, Eq, Hash, Structural)]
pub struct Reference(pub u32);

/// Return Address is the address of an opcode instruction in a method.
#[derive(Clone, Copy, Debug, PartialEq, Eq, Structural)]
pub struct ReturnAddress(pub u32);

/// A generic enumeration over the potential runtime values in the JVM.
#[derive(Clone, Copy, Debug, PartialEq, Eq, Structural)]
pub enum Value {
    Int(Int),
    Long(Long),
    Float(Float),
    Double(Double),
    Reference(Reference),
    ReturnAddress(ReturnAddress),
}

impl Value {
    /// The computational category of the value: longs and doubles take two slots (category 2),
    /// every other value one slot (category 1).
    pub open spec fn spec_category(self) -> u8 {
        match self {
            Value::Long(_) | Value::Double(_) => 2,
            _ => 1,
        }
    }

    /// The computational category of the value, 1 or 2.
    pub fn category(&self) -> (c: u8)
        ensures
            c == self.spec_category(),
    {
        match self {
            Value::Long(_) | Value::Double(_) => 2,
            _ => 1,
        }
    }

    /// The int held by an `Int` value.
    pub fn as_int(&self) -> (i: Int)
        requires
            self is Int,
        ensures
            i == self->Int_0,
    {
        match self {
            Value::Int(i) => *i,
            _ => Int(0),
        }
    }

    /// The long held by a `Long` value.
    pub fn as_long(&self) -> (l: Long)
        requires
            self is Long,
        ensures
            l == self->Long_0,
    {
        match self {
            Value::Long(l) => *l,
            _ => Long(0),
        }
    }

    /// The float bits held by a `Float` value.
    pub fn as_float(&self) -> (f: Float)
        requires
            self is Float,
        ensures
            f == self->Float_0,
    {
        match self {
            Value::Float(f) => *f,
            _ => Float(0),
        }
    }

    /// The double bits held by a `Double` value.
    pub fn as_double(&self) -> (d: Double)
        requires
            self is Double,
        ensures
            d == self->Double_0,
    {
        match self {
            Value::Double(d) => *d,
            _ => Double(0),
        }
    }

    /// The reference held by a `Reference` value.
    pub fn as_reference(&self) -> (r: Reference)
        requires
            self is Reference,
        ensures
            r == self->Reference_0,
    {
        match self {
            Value::Reference(r) => *r,
            _ => Reference(0),
        }
    }
}

} // verus!
