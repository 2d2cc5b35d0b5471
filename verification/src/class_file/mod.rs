//! The binary representation of a class file, as read by the class loader.

use std::collections::HashMap;

use vstd::prelude::*;

use crate::class_file::const_pool::{Const, ConstModel};

pub mod const_pool;

verus! {

broadcast use vstd::std_specs::hash::group_hash_axioms;

/// The expected value at the start of a class file, identifying the class file format.
pub const MAGIC: u32 = 0xCAFE_BABE;

/// Static access flag.
pub const ACCESS_FLAG_STATIC: u16 = 0x0008;

/// Native access flag.
pub const ACCESS_FLAG_NATIVE: u16 = 0x0100;

/// Synchronized access flag.
pub const ACCESS_FLAG_SYNC: u16 = 0x1000;

/// The model of a class file.
pub struct ClassFileModel {
    pub magic: u32,
    pub minor_version: u16,
    pub major_version: u16,
    pub const_pool: Map<u16, ConstModel>,
    pub access_flags: u16,
    pub this_class: u16,
    pub super_class: u16,
    pub fields: Seq<Field>,
    pub methods: Seq<MethodModel>,
    pub attributes: Seq<ClassAttributeModel>,
}

/// The binary representation of a class file.
///
/// For further reference, see [the JVM spec](https://docs.oracle.com/javase/specs/jvms/se8/html/jvms-4.html).
pub struct ClassFile {
    /// The `magic` item supplies the MAGIC number identifying the class file format; it has the value 0xCAFEBABE.
    ///
    /// While this value is a constant, we keep it in the class file for verification.
    pub magic: u32,
    /// The minor portion of the class file's version. `m` in version `M.m`.
    pub minor_version: u16,
    /// The major portion of the class file's version.  `M` in version `M.m`.
    pub major_version: u16,
    /// The `const_pool` is a table of structures representing various string constants, classes
    /// and interface names, and other constants that are referred to within the `ClassFile`
    /// structure.
    ///
    /// Each entry is indexed by a `u16` position, that might not be continuous based on the size
    /// of various constants, so we use a `HashMap` to represent the pool.
    pub const_pool: HashMap<u16, Const>,
    /// A mask of flags to denote access permissions to properties of this class or interface.
    pub access_flags: u16,
    /// The value of `this_class` must be a valid index into `const_pool`, that entry must be
    /// a valid `Const::Class` instance, representing this class.
    pub this_class: u16,
    /// The value of `super_class` may be zero, denoting a super class of `java.lang.Object`,
    /// or non-zero, a valid index into `const_pool`, which must be a `Const::Class` representing
    /// the super class of this type.
    pub super_class: u16,
    /// The fields supplied in this class file.
    pub fields: Vec<Field>,
    /// The methods supplied in the class file.
    pub methods: Vec<Method>,
    pub attributes: Vec<ClassAttribute>,
}

/// The model of a constant pool.
pub open spec fn pool_model(pool: Map<u16, Const>) -> Map<u16, ConstModel> {
    pool.map_values(|c: Const| c@)
}

impl View for ClassFile {
    type V = ClassFileModel;

    open spec fn view(&self) -> ClassFileModel {
        ClassFileModel {
            magic: self.magic,
            minor_version: self.minor_version,
            major_version: self.major_version,
            const_pool: pool_model(self.const_pool@),
            access_flags: self.access_flags,
            this_class: self.this_class,
            super_class: self.super_class,
            fields: self.fields@,
            methods: self.methods@.map_values(|m: Method| m@),
            attributes: self.attributes@.map_values(|a: ClassAttribute| a@),
        }
    }
}

impl ClassFile {
    /// The `Utf8` entry of the constant pool at `index`, which must be one.
    pub fn get_const_utf8(&self, index: u16) -> (res: &const_pool::Utf8)
        requires
            self@.const_pool.contains_key(index),
            self@.const_pool[index] is Utf8,
        ensures
            ConstModel::Utf8(res.bytes@) == self@.const_pool[index],
    {
        let con = self.const_pool.get(&index).unwrap();
        match con {
            Const::Utf8(entry) => entry,
            _ => unreached(),
        }
    }

    /// The `Integer` entry of the constant pool at `index`, which must be one.
    pub fn get_const_integer(&self, index: u16) -> (res: &const_pool::Integer)
        requires
            self@.const_pool.contains_key(index),
            self@.const_pool[index] is Integer,
        ensures
            ConstModel::Integer(res.int) == self@.const_pool[index],
    {
        let con = self.const_pool.get(&index).unwrap();
        match con {
            Const::Integer(entry) => entry,
            _ => unreached(),
        }
    }

    /// The `Class` entry of the constant pool at `index`, which must be one.
    pub fn get_const_class(&self, index: u16) -> (res: &const_pool::Class)
        requires
            self@.const_pool.contains_key(index),
            self@.const_pool[index] is Class,
        ensures
            ConstModel::Class(res.name) == self@.const_pool[index],
    {
        let con = self.const_pool.get(&index).unwrap();
        match con {
            Const::Class(entry) => entry,
            _ => unreached(),
        }
    }

    /// The `String` entry of the constant pool at `index`, which must be one.
    pub fn get_const_string(&self, index: u16) -> (res: &const_pool::String)
        requires
            self@.const_pool.contains_key(index),
            self@.const_pool[index] is String,
        ensures
            ConstModel::String(res.string) == self@.const_pool[index],
    {
        let con = self.const_pool.get(&index).unwrap();
        match con {
            Const::String(entry) => entry,
            _ => unreached(),
        }
    }

    /// The `FieldRef` entry of the constant pool at `index`, which must be one.
    pub fn get_const_field(&self, index: u16) -> (res: &const_pool::FieldRef)
        requires
            self@.const_pool.contains_key(index),
            self@.const_pool[index] is FieldRef,
        ensures
            ConstModel::FieldRef(res.class, res.name_and_type) == self@.const_pool[index],
    {
        let con = self.const_pool.get(&index).unwrap();
        match con {
            Const::FieldRef(entry) => entry,
            _ => unreached(),
        }
    }

    /// The `MethodRef` entry of the constant pool at `index`, which must be one.
    pub fn get_const_method(&self, index: u16) -> (res: &const_pool::MethodRef)
        requires
            self@.const_pool.contains_key(index),
            self@.const_pool[index] is MethodRef,
        ensures
            ConstModel::MethodRef(res.class, res.name_and_type) == self@.const_pool[index],
    {
        let con = self.const_pool.get(&index).unwrap();
        match con {
            Const::MethodRef(entry) => entry,
            _ => unreached(),
        }
    }

    /// The `NameAndType` entry of the constant pool at `index`, which must be one.
    pub fn get_const_name_and_type(&self, index: u16) -> (res: &const_pool::NameAndType)
        requires
            self@.const_pool.contains_key(index),
            self@.const_pool[index] is NameAndType,
        ensures
            ConstModel::NameAndType(res.name, res.descriptor) == self@.const_pool[index],
    {
        let con = self.const_pool.get(&index).unwrap();
        match con {
            Const::NameAndType(entry) => entry,
            _ => unreached(),
        }
    }
}

/// The `field_info` struct of a Class File.
///
/// For further information, see [the spec](https://docs.oracle.com/javase/specs/jvms/se8/html/jvms-4.html#jvms-4.5).
#[derive(Debug, PartialEq)]
pub struct Field {
    /// A mask of flags denoting access permissions to and properties of this field.
    pub access_flags: u16,
    /// A valid index into `const_pool`, which must be a valid `Const::Utf8` value, the name of
    /// this field.
    pub name: u16,
    /// A valid index into `const_pool`, which must be a valid `Const::Utf8` value, the descriptor
    /// of this field.
    pub descriptor: u16,
}

impl View for Field {
    type V = Field;

    open spec fn view(&self) -> Field {
        *self
    }
}

/// The model of a method of a class file.
pub struct MethodModel {
    pub access_flags: u16,
    pub name: u16,
    pub descriptor: u16,
    pub attributes: Seq<MethodAttributeModel>,
}

/// The `method_info` struct of a Class File.
///
/// For further information, see [the spec](https://docs.oracle.com/javase/specs/jvms/se8/html/jvms-4.html#jvms-4.6).
#[derive(Debug, PartialEq)]
pub struct Method {
    /// A mask of flags denoting access permissions to and properties of this method.
    pub access_flags: u16,
    /// A valid index into `const_pool`, which must be a valid `Const::Utf8` value, the name of
    /// this method.
    pub name: u16,
    /// A valid index into `const_pool`, which must be a valid `Const::Utf8` value, the descriptor
    /// of this method signature.
    pub descriptor: u16,
    pub attributes: Vec<MethodAttribute>,
}

impl View for Method {
    type V = MethodModel;

    open spec fn view(&self) -> MethodModel {
        MethodModel {
            access_flags: self.access_flags,
            name: self.name,
            descriptor: self.descriptor,
            attributes: self.attributes@.map_values(|a: MethodAttribute| a@),
        }
    }
}

/// The index of the first `Code` attribute among `attrs`, if any.
pub open spec fn first_code(attrs: Seq<MethodAttributeModel>) -> Option<int>
    decreases attrs.len(),
{
    if attrs.len() == 0 {
        None
    } else if attrs[0] is Code {
        Some(0)
    } else {
        match first_code(attrs.drop_first()) {
            Some(i) => Some(i + 1),
            None => None,
        }
    }
}

impl Method {
    /// The method's first `Code` attribute, if it has one.
    pub fn code(&self) -> (res: Option<&Code>)
        ensures
            match first_code(self@.attributes) {
                Some(i) => res matches Some(c) && MethodAttributeModel::Code(c@) == self@.attributes[i],
                None => res is None,
            },
    {
        let mut i: usize = 0;
        proof {
            assert(self@.attributes.subrange(0, self@.attributes.len() as int) =~= self@.attributes);
        }
        while i < self.attributes.len()
            invariant
                i <= self.attributes.len(),
                first_code(self@.attributes) == match first_code(self@.attributes.subrange(i as int, self@.attributes.len() as int)) {
                    Some(j) => Some(j + i),
                    None => None,
                },
            decreases self.attributes.len() - i,
        {
            proof {
                let rest = self@.attributes.subrange(i as int, self@.attributes.len() as int);
                assert(rest.drop_first() =~= self@.attributes.subrange(i + 1, self@.attributes.len() as int));
            }
            match &self.attributes[i] {
                MethodAttribute::Code(code) => return Some(code),
                _ => {},
            }
            i += 1;
        }
        return None;
    }
}

/// The model of a `Code` attribute.
pub struct CodeModel {
    pub max_stack: u16,
    pub max_locals: u16,
    pub code: Seq<u8>,
    pub ex_table: Seq<ExHandler>,
    pub attributes: Seq<CodeAttributeModel>,
}

/// The Code attribute for a Method.
#[derive(Clone, Debug, PartialEq)]
pub struct Code {
    /// The max size of the frame's stack.
    pub max_stack: u16,
    /// The max size of the frame's local variables.
    pub max_locals: u16,
    /// The Java Virtual Machine code executed in this method.
    pub code: Vec<u8>,
    pub ex_table: Vec<ExHandler>,
    pub attributes: Vec<CodeAttribute>,
}

impl View for Code {
    type V = CodeModel;

    open spec fn view(&self) -> CodeModel {
        CodeModel {
            max_stack: self.max_stack,
            max_locals: self.max_locals,
            code: self.code@,
            ex_table: self.ex_table@,
            attributes: self.attributes@.map_values(|a: CodeAttribute| a@),
        }
    }
}

/// The index of the first line number table among `attrs`, if any.
pub open spec fn first_line_number_table(attrs: Seq<CodeAttributeModel>) -> Option<int>
    decreases attrs.len(),
{
    if attrs.len() == 0 {
        None
    } else if attrs[0] is LineNumberTable {
        Some(0)
    } else {
        match first_line_number_table(attrs.drop_first()) {
            Some(i) => Some(i + 1),
            None => None,
        }
    }
}

impl Code {
    /// The first line number table among the code's attributes, if any.
    pub fn line_number_table(&self) -> (res: Option<&LineNumberTable>)
        ensures
            match first_line_number_table(self@.attributes) {
                Some(i) => res matches Some(t) && CodeAttributeModel::LineNumberTable(t.table@) == self@.attributes[i],
                None => res is None,
            },
    {
        let mut i: usize = 0;
        proof {
            assert(self@.attributes.subrange(0, self@.attributes.len() as int) =~= self@.attributes);
        }
        while i < self.attributes.len()
            invariant
                i <= self.attributes.len(),
                first_line_number_table(self@.attributes) == match first_line_number_table(self@.attributes.subrange(i as int, self@.attributes.len() as int)) {
                    Some(j) => Some(j + i),
                    None => None,
                },
            decreases self.attributes.len() - i,
        {
            proof {
                let rest = self@.attributes.subrange(i as int, self@.attributes.len() as int);
                assert(rest.drop_first() =~= self@.attributes.subrange(i + 1, self@.attributes.len() as int));
            }
            match &self.attributes[i] {
                CodeAttribute::LineNumberTable(lnt) => return Some(lnt),
                _ => {},
            }
            i += 1;
        }
        return None;
    }
}

/// An entry of a code's exception table.
#[derive(Clone, Debug, PartialEq)]
pub struct ExHandler {
    pub start_pc: u16,
    pub end_pc: u16,
    pub handler_pc: u16,
    pub catch_type: u16,
}

impl View for ExHandler {
    type V = ExHandler;

    open spec fn view(&self) -> ExHandler {
        *self
    }
}

/// The model of a class attribute.
pub enum ClassAttributeModel {
    SourceFile(u16),
    Unknown(u16, Seq<u8>),
}

/// An attribute of a class.
#[derive(Clone, Debug, PartialEq)]
pub enum ClassAttribute {
    SourceFile(SourceFile),
    Unknown(UnknownAttribute),
}

impl View for ClassAttribute {
    type V = ClassAttributeModel;

    open spec fn view(&self) -> ClassAttributeModel {
        match self {
            ClassAttribute::SourceFile(s) => ClassAttributeModel::SourceFile(s.source_file),
            ClassAttribute::Unknown(u) => ClassAttributeModel::Unknown(u.name_idx, u.bytes@),
        }
    }
}

/// The model of a method attribute.
pub enum MethodAttributeModel {
    Code(CodeModel),
    Unknown(u16, Seq<u8>),
}

/// An attribute of a method.
#[derive(Clone, Debug, PartialEq)]
pub enum MethodAttribute {
    Code(Code),
    Unknown(UnknownAttribute),
}

impl View for MethodAttribute {
    type V = MethodAttributeModel;

    open spec fn view(&self) -> MethodAttributeModel {
        match self {
            MethodAttribute::Code(c) => MethodAttributeModel::Code(c@),
            MethodAttribute::Unknown(u) => MethodAttributeModel::Unknown(u.name_idx, u.bytes@),
        }
    }
}

/// The model of an attribute of a code attribute.
pub enum CodeAttributeModel {
    LineNumberTable(Seq<LineNumber>),
    Unknown(u16, Seq<u8>),
}

/// An attribute of a `Code` attribute.
#[derive(Clone, Debug, PartialEq)]
pub enum CodeAttribute {
    LineNumberTable(LineNumberTable),
    Unknown(UnknownAttribute),
}

impl View for CodeAttribute {
    type V = CodeAttributeModel;

    open spec fn view(&self) -> CodeAttributeModel {
        match self {
            CodeAttribute::LineNumberTable(t) => CodeAttributeModel::LineNumberTable(t.table@),
            CodeAttribute::Unknown(u) => CodeAttributeModel::Unknown(u.name_idx, u.bytes@),
        }
    }
}

/// The `SourceFile` attribute: the index of the source file's name in the constant pool.
#[derive(Clone, Debug, PartialEq)]
pub struct SourceFile {
    pub source_file: u16,
}

/// An attribute that is kept as the index of its name and its raw bytes.
#[derive(Clone, Debug, PartialEq)]
pub struct UnknownAttribute {
    pub name_idx: u16,
    pub bytes: Vec<u8>,
}

/// A table from code positions to source line numbers.
#[derive(Clone, Debug, PartialEq)]
pub struct LineNumberTable {
    pub table: Vec<LineNumber>,
}

/// The source line of the code starting at `start_pc`.
#[derive(Clone, Copy, Debug, PartialEq)]
pub struct LineNumber {
    pub start_pc: u16,
    pub line_number: u16,
}

impl View for LineNumber {
    type V = LineNumber;

    open spec fn view(&self) -> LineNumber {
        *self
    }
}

/// A copy of the bytes of `bytes`.
fn copy_all(bytes: &Vec<u8>) -> (res: Vec<u8>)
    ensures
        res@ == bytes@,
{
    let res = crate::binary::copy_bytes(bytes.as_slice(), 0, bytes.len());
    proof {
        assert(res@ =~= bytes@);
    }
    res
}

impl UnknownAttribute {
    /// A copy of the attribute.
    pub fn duplicate(&self) -> (res: UnknownAttribute)
        ensures
            res.name_idx == self.name_idx,
            res.bytes@ == self.bytes@,
    {
        UnknownAttribute { name_idx: self.name_idx, bytes: copy_all(&self.bytes) }
    }
}

impl CodeAttribute {
    /// A copy of the attribute.
    pub fn duplicate(&self) -> (res: CodeAttribute)
        ensures
            res@ == self@,
    {
        match self {
            CodeAttribute::LineNumberTable(t) => {
                let mut table: Vec<LineNumber> = Vec::new();
                let mut i: usize = 0;
                while i < t.table.len()
                    invariant
                        i <= t.table.len(),
                        table@ == t.table@.subrange(0, i as int),
                    decreases t.table.len() - i,
                {
                    let entry = t.table[i];
                    table.push(LineNumber { start_pc: entry.start_pc, line_number: entry.line_number });
                    proof {
                        assert(table@ =~= t.table@.subrange(0, i + 1));
                    }
                    i += 1;
                }
                proof {
                    assert(table@ =~= t.table@);
                }
                CodeAttribute::LineNumberTable(LineNumberTable { table })
            },
            CodeAttribute::Unknown(u) => CodeAttribute::Unknown(u.duplicate()),
        }
    }
}

impl Code {
    /// A copy of the code attribute.
    pub fn duplicate(&self) -> (res: Code)
        ensures
            res@ == self@,
    {
        let mut ex_table: Vec<ExHandler> = Vec::new();
        let mut i: usize = 0;
        while i < self.ex_table.len()
            invariant
                i <= self.ex_table.len(),
                ex_table@ == self.ex_table@.subrange(0, i as int),
            decreases self.ex_table.len() - i,
        {
            let h = &self.ex_table[i];
            ex_table.push(
                ExHandler {
                    start_pc: h.start_pc,
                    end_pc: h.end_pc,
                    handler_pc: h.handler_pc,
                    catch_type: h.catch_type,
                },
            );
            proof {
                assert(ex_table@ =~= self.ex_table@.subrange(0, i + 1));
            }
            i += 1;
        }
        let mut attributes: Vec<CodeAttribute> = Vec::new();
        let mut j: usize = 0;
        while j < self.attributes.len()
            invariant
                j <= self.attributes.len(),
                attributes@.len() == j,
                forall|k: int| 0 <= k < j ==> (#[trigger] attributes@[k])@ == self.attributes@[k]@,
            decreases self.attributes.len() - j,
        {
            let copy = self.attributes[j].duplicate();
            attributes.push(copy);

            j += 1;
        }
        proof {
            assert(ex_table@ =~= self.ex_table@);
            assert(attributes@.map_values(|a: CodeAttribute| a@) =~= self.attributes@.map_values(
                |a: CodeAttribute| a@,
            ));
        }
        Code {
            max_stack: self.max_stack,
            max_locals: self.max_locals,
            code: copy_all(&self.code),
            ex_table,
            attributes,
        }
    }
}

} // verus!
