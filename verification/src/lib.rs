//! A Java Virtual Machine: class file formats, type descriptors, the bytecode
//! interpreter's instruction semantics and the runtime data structures they act on.

pub mod binary;
pub mod text;
pub mod java;
pub mod class_file;
pub mod loader;
pub mod class_reader;
pub mod thread;
pub mod instruction;
pub mod heap;
pub mod collection;
pub mod method_area;
pub mod runtime;
pub mod native;
pub mod shim;
