//! Types that are relevant to implementing the Java language.

pub mod field_type;
pub mod method_type;
pub mod type_parser;
pub mod value;

pub use field_type::FieldType;
pub use method_type::MethodType;
pub use type_parser::ParseError;
pub use value::{Double, Float, Int, Long, Reference, ReturnAddress, Value};
pub mod laws;
