//! A reader of the class file format that keeps every constant pool entry and every attribute
//! as it finds them: attributes stay raw, named by their constant pool entry.

use vstd::prelude::*;
use vstd::utf8::{decode_utf8, valid_utf8};

use crate::binary::{be32, be64};
use crate::class_file::MAGIC;
use crate::loader::parser::{
    LoadError,
    LoadFailure,
    Parser,
    Read,
    bytes_at,
    continue_list,
    decimal,
    digit_char,
    lemma_list_end,
    lemma_list_start,
    lemma_list_step,
    lemma_list_stop,
    read_list,
    u16_at,
    u32_at,
    u8_at,
    yields,
    yields_list,
};
use crate::text::{push_char, string_from_utf8};

verus! {

// ---------------------------------------------------------------------------------------------
// The structures read, and their models.
// ---------------------------------------------------------------------------------------------

/// The version of the class file format.
#[derive(Clone, Copy, Debug, PartialEq, Eq, Structural)]
pub struct Version {
    pub minor: u16,
    pub major: u16,
}

impl View for Version {
    type V = Version;

    open spec fn view(&self) -> Version {
        *self
    }
}

/// A constant pool entry as a value.
pub enum EntryModel {
    Utf8(Seq<char>),
    Integer(i32),
    /// The bits of an IEEE 754 single.
    Float(u32),
    Long(i64),
    /// The bits of an IEEE 754 double.
    Double(u64),
    Class(u16),
    String(u16),
    Field(u16, u16),
    Method(u16, u16),
    InterfaceMethod(u16, u16),
    NameAndType(u16, u16),
    MethodHandle(u8, u16),
    MethodType(u16),
    InvokeDynamic(u16, u16),
}

/// A constant pool entry. Floating point constants are kept as their IEEE 754 bits.
#[derive(Debug, PartialEq)]
pub enum Const {
    Utf8 { utf8: String },
    Integer { value: i32 },
    Float { bits: u32 },
    Long { long: i64 },
    Double { bits: u64 },
    Class { name_idx: u16 },
    String { string_idx: u16 },
    Field { class_idx: u16, name_and_type_idx: u16 },
    Method { class_idx: u16, name_and_type_idx: u16 },
    InterfaceMethod { class_idx: u16, name_and_type_idx: u16 },
    NameAndType { name_idx: u16, descriptor_idx: u16 },
    MethodHandle { reference_kind: u8, reference_idx: u16 },
    MethodType { descriptor_idx: u16 },
    InvokeDynamic { bootstrap_idx: u16, name_and_type_idx: u16 },
}

impl View for Const {
    type V = EntryModel;

    open spec fn view(&self) -> EntryModel {
        match self {
            Const::Utf8 { utf8 } => EntryModel::Utf8(utf8@),
            Const::Integer { value } => EntryModel::Integer(*value),
            Const::Float { bits } => EntryModel::Float(*bits),
            Const::Long { long } => EntryModel::Long(*long),
            Const::Double { bits } => EntryModel::Double(*bits),
            Const::Class { name_idx } => EntryModel::Class(*name_idx),
            Const::String { string_idx } => EntryModel::String(*string_idx),
            Const::Field { class_idx, name_and_type_idx } => EntryModel::Field(
                *class_idx,
                *name_and_type_idx,
            ),
            Const::Method { class_idx, name_and_type_idx } => EntryModel::Method(
                *class_idx,
                *name_and_type_idx,
            ),
            Const::InterfaceMethod { class_idx, name_and_type_idx } => EntryModel::InterfaceMethod(
                *class_idx,
                *name_and_type_idx,
            ),
            Const::NameAndType { name_idx, descriptor_idx } => EntryModel::NameAndType(
                *name_idx,
                *descriptor_idx,
            ),
            Const::MethodHandle { reference_kind, reference_idx } => EntryModel::MethodHandle(
                *reference_kind,
                *reference_idx,
            ),
            Const::MethodType { descriptor_idx } => EntryModel::MethodType(*descriptor_idx),
            Const::InvokeDynamic { bootstrap_idx, name_and_type_idx } => EntryModel::InvokeDynamic(
                *bootstrap_idx,
                *name_and_type_idx,
            ),
        }
    }
}

impl Const {
    /// The text of a string constant, which this must be.
    pub fn expect_utf8(&self) -> (s: &String)
        requires
            self is Utf8,
        ensures
            self@ == EntryModel::Utf8(s@),
    {
        match self {
            Const::Utf8 { utf8 } => utf8,
            _ => unreached(),
        }
    }

    /// The value of an integer constant, which this must be.
    pub fn expect_integer(&self) -> (v: i32)
        requires
            self is Integer,
        ensures
            self@ == EntryModel::Integer(v),
    {
        match self {
            Const::Integer { value } => *value,
            _ => unreached(),
        }
    }

    /// The bits of a float constant, which this must be.
    pub fn expect_float(&self) -> (bits: u32)
        requires
            self is Float,
        ensures
            self@ == EntryModel::Float(bits),
    {
        match self {
            Const::Float { bits } => *bits,
            _ => unreached(),
        }
    }

    /// The value of a long constant, which this must be.
    pub fn expect_long(&self) -> (v: i64)
        requires
            self is Long,
        ensures
            self@ == EntryModel::Long(v),
    {
        match self {
            Const::Long { long } => *long,
            _ => unreached(),
        }
    }

    /// The bits of a double constant, which this must be.
    pub fn expect_double(&self) -> (bits: u64)
        requires
            self is Double,
        ensures
            self@ == EntryModel::Double(bits),
    {
        match self {
            Const::Double { bits } => *bits,
            _ => unreached(),
        }
    }

    /// The name index of a class constant, which this must be.
    pub fn expect_class(&self) -> (name_idx: u16)
        requires
            self is Class,
        ensures
            self@ == EntryModel::Class(name_idx),
    {
        match self {
            Const::Class { name_idx } => *name_idx,
            _ => unreached(),
        }
    }

    /// The text index of a string constant, which this must be.
    pub fn expect_string(&self) -> (string_idx: u16)
        requires
            self is String,
        ensures
            self@ == EntryModel::String(string_idx),
    {
        match self {
            Const::String { string_idx } => *string_idx,
            _ => unreached(),
        }
    }

    /// The class and name-and-type indices of a field reference, which this must be.
    pub fn expect_field(&self) -> (res: (u16, u16))
        requires
            self is Field,
        ensures
            self@ == EntryModel::Field(res.0, res.1),
    {
        match self {
            Const::Field { class_idx, name_and_type_idx } => (*class_idx, *name_and_type_idx),
            _ => unreached(),
        }
    }

    /// The class and name-and-type indices of a method reference, which this must be.
    pub fn expect_method(&self) -> (res: (u16, u16))
        requires
            self is Method,
        ensures
            self@ == EntryModel::Method(res.0, res.1),
    {
        match self {
            Const::Method { class_idx, name_and_type_idx } => (*class_idx, *name_and_type_idx),
            _ => unreached(),
        }
    }

    /// The name and descriptor indices of a name-and-type constant, which this must be.
    pub fn expect_name_and_type(&self) -> (res: (u16, u16))
        requires
            self is NameAndType,
        ensures
            self@ == EntryModel::NameAndType(res.0, res.1),
    {
        match self {
            Const::NameAndType { name_idx, descriptor_idx } => (*name_idx, *descriptor_idx),
            _ => unreached(),
        }
    }
}

/// An attribute as a value: its name and its raw bytes.
pub struct AttributeModel {
    pub name: Seq<char>,
    pub info: Seq<u8>,
}

/// An attribute, kept raw.
pub enum Attribute {
    Other { name: String, info: Vec<u8> },
}

impl View for Attribute {
    type V = AttributeModel;

    open spec fn view(&self) -> AttributeModel {
        match self {
            Attribute::Other { name, info } => AttributeModel { name: name@, info: info@ },
        }
    }
}

/// A field or a method as a value.
pub struct MemberModel {
    pub access_flags: u16,
    pub name_idx: u16,
    pub descriptor_idx: u16,
    pub attributes: Seq<AttributeModel>,
}

/// The attributes of `attributes` as values.
pub open spec fn attribute_models(attributes: Seq<Attribute>) -> Seq<AttributeModel> {
    attributes.map_values(|a: Attribute| a@)
}

/// A field of a class.
pub struct Field {
    pub access_flags: u16,
    pub name_idx: u16,
    pub descriptor_idx: u16,
    pub attributes: Vec<Attribute>,
}

impl View for Field {
    type V = MemberModel;

    open spec fn view(&self) -> MemberModel {
        MemberModel {
            access_flags: self.access_flags,
            name_idx: self.name_idx,
            descriptor_idx: self.descriptor_idx,
            attributes: attribute_models(self.attributes@),
        }
    }
}

/// A method of a class.
pub struct Method {
    pub access_flags: u16,
    pub name_idx: u16,
    pub descriptor_idx: u16,
    pub attributes: Vec<Attribute>,
}

impl View for Method {
    type V = MemberModel;

    open spec fn view(&self) -> MemberModel {
        MemberModel {
            access_flags: self.access_flags,
            name_idx: self.name_idx,
            descriptor_idx: self.descriptor_idx,
            attributes: attribute_models(self.attributes@),
        }
    }
}

/// A class file as a value.
pub struct ClassModel {
    pub version: Version,
    pub const_pool: Seq<EntryModel>,
    pub access_flags: u16,
    pub this_class: u16,
    pub super_class: u16,
    pub interfaces: Seq<u16>,
    pub fields: Seq<MemberModel>,
    pub methods: Seq<MemberModel>,
    pub attributes: Seq<AttributeModel>,
}

/// The entries of a constant pool as values.
pub open spec fn pool_models(pool: Seq<Const>) -> Seq<EntryModel> {
    pool.map_values(|c: Const| c@)
}

/// A class file.
pub struct ClassFile {
    pub version: Version,
    pub const_pool: Vec<Const>,
    pub access_flags: u16,
    pub this_class: u16,
    pub super_class: u16,
    pub interfaces: Vec<u16>,
    pub fields: Vec<Field>,
    pub methods: Vec<Method>,
    pub attributes: Vec<Attribute>,
}

impl View for ClassFile {
    type V = ClassModel;

    open spec fn view(&self) -> ClassModel {
        ClassModel {
            version: self.version,
            const_pool: pool_models(self.const_pool@),
            access_flags: self.access_flags,
            this_class: self.this_class,
            super_class: self.super_class,
            interfaces: self.interfaces@,
            fields: self.fields@.map_values(|f: Field| f@),
            methods: self.methods@.map_values(|m: Method| m@),
            attributes: attribute_models(self.attributes@),
        }
    }
}

// ---------------------------------------------------------------------------------------------
// The format, as spec functions over the bytes read.
// ---------------------------------------------------------------------------------------------

/// The message of the error for an unknown constant pool tag.
pub open spec fn unknown_pool_tag_message(tag: u8) -> Seq<char> {
    "Unknown Constant Pool tag "@ + decimal(tag)
}

/// The message of the error for bytes that do not start with the magic number.
pub open spec fn bad_magic_code_message() -> Seq<char> {
    "Expected Magic Code 0xCAFEBABE"@
}

/// The message of the error for a string constant that is not valid UTF-8.
pub open spec fn invalid_utf8_message() -> Seq<char> {
    "invalid UTF-8"@
}

/// Reading a version: the minor number, then the major one.
pub open spec fn version_at(b: Seq<u8>, p: int) -> Read<Version> {
    match u16_at(b, p) {
        Read::Done(minor, p1) => match u16_at(b, p1) {
            Read::Done(major, p2) => Read::Done(Version { minor, major }, p2),
            _ => Read::Fail(LoadFailure::EndOfInput),
        },
        _ => Read::Fail(LoadFailure::EndOfInput),
    }
}

/// Reading a big-endian unsigned 64-bit number.
pub open spec fn u64_at(b: Seq<u8>, p: int) -> Read<u64> {
    if 0 <= p && p + 8 <= b.len() {
        Read::Done(be64(b, p), p + 8)
    } else {
        Read::Fail(LoadFailure::EndOfInput)
    }
}

/// A string constant made of the bytes `bs`, which end at `p`.
pub open spec fn utf8_entry(bs: Seq<u8>, p: int) -> Read<EntryModel> {
    if valid_utf8(bs) {
        Read::Done(EntryModel::Utf8(decode_utf8(bs)), p)
    } else {
        Read::Fail(LoadFailure::Message(invalid_utf8_message()))
    }
}

/// Reading an entry made of one index.
pub open spec fn index_entry(b: Seq<u8>, p: int, make: spec_fn(u16) -> EntryModel) -> Read<
    EntryModel,
> {
    match u16_at(b, p) {
        Read::Done(i, q) => Read::Done(make(i), q),
        _ => Read::Fail(LoadFailure::EndOfInput),
    }
}

/// Reading an entry made of two indices.
pub open spec fn pair_entry(b: Seq<u8>, p: int, make: spec_fn(u16, u16) -> EntryModel) -> Read<
    EntryModel,
> {
    match u16_at(b, p) {
        Read::Done(i, q) => match u16_at(b, q) {
            Read::Done(j, r) => Read::Done(make(i, j), r),
            _ => Read::Fail(LoadFailure::EndOfInput),
        },
        _ => Read::Fail(LoadFailure::EndOfInput),
    }
}

/// Reading the rest of an entry whose tag was `tag`.
pub open spec fn entry_body_at(b: Seq<u8>, p: int, tag: u8) -> Read<EntryModel> {
    if tag == 1 {
        match u16_at(b, p) {
            Read::Done(len, p1) => match bytes_at(b, p1, len as int) {
                Read::Done(bs, p2) => utf8_entry(bs, p2),
                _ => Read::Fail(LoadFailure::EndOfInput),
            },
            _ => Read::Fail(LoadFailure::EndOfInput),
        }
    } else if tag == 3 {
        match u32_at(b, p) {
            Read::Done(v, q) => Read::Done(EntryModel::Integer(v as i32), q),
            _ => Read::Fail(LoadFailure::EndOfInput),
        }
    } else if tag == 4 {
        match u32_at(b, p) {
            Read::Done(v, q) => Read::Done(EntryModel::Float(v), q),
            _ => Read::Fail(LoadFailure::EndOfInput),
        }
    } else if tag == 5 {
        match u64_at(b, p) {
            Read::Done(v, q) => Read::Done(EntryModel::Long(v as i64), q),
            _ => Read::Fail(LoadFailure::EndOfInput),
        }
    } else if tag == 6 {
        match u64_at(b, p) {
            Read::Done(v, q) => Read::Done(EntryModel::Double(v), q),
            _ => Read::Fail(LoadFailure::EndOfInput),
        }
    } else if tag == 7 {
        index_entry(b, p, |i: u16| EntryModel::Class(i))
    } else if tag == 8 {
        index_entry(b, p, |i: u16| EntryModel::String(i))
    } else if tag == 9 {
        pair_entry(b, p, |i: u16, j: u16| EntryModel::Field(i, j))
    } else if tag == 10 {
        pair_entry(b, p, |i: u16, j: u16| EntryModel::Method(i, j))
    } else if tag == 11 {
        pair_entry(b, p, |i: u16, j: u16| EntryModel::InterfaceMethod(i, j))
    } else if tag == 12 {
        pair_entry(b, p, |i: u16, j: u16| EntryModel::NameAndType(i, j))
    } else if tag == 15 {
        match u8_at(b, p) {
            Read::Done(kind, p1) => match u16_at(b, p1) {
                Read::Done(i, p2) => Read::Done(EntryModel::MethodHandle(kind, i), p2),
                _ => Read::Fail(LoadFailure::EndOfInput),
            },
            _ => Read::Fail(LoadFailure::EndOfInput),
        }
    } else if tag == 16 {
        index_entry(b, p, |i: u16| EntryModel::MethodType(i))
    } else if tag == 18 {
        pair_entry(b, p, |i: u16, j: u16| EntryModel::InvokeDynamic(i, j))
    } else {
        Read::Fail(LoadFailure::Message(unknown_pool_tag_message(tag)))
    }
}

/// Reading a constant pool entry: its tag, then what the tag calls for.
pub open spec fn entry_at(b: Seq<u8>, p: int) -> Read<EntryModel> {
    match u8_at(b, p) {
        Read::Done(tag, p1) => entry_body_at(b, p1, tag),
        _ => Read::Fail(LoadFailure::EndOfInput),
    }
}

/// The string constant at the 1-based index `idx` of `pool`, if there is one.
pub open spec fn pool_utf8(pool: Seq<EntryModel>, idx: u16) -> Option<Seq<char>> {
    if 1 <= idx <= pool.len() {
        match pool[idx - 1] {
            EntryModel::Utf8(s) => Some(s),
            _ => None,
        }
    } else {
        None
    }
}

/// Reading an attribute: the index of its name in `pool`, its length and that many bytes. A
/// name index that is not that of a string constant stops the program.
pub open spec fn attribute_at(b: Seq<u8>, p: int, pool: Seq<EntryModel>) -> Read<AttributeModel> {
    match u16_at(b, p) {
        Read::Done(idx, p1) => match pool_utf8(pool, idx) {
            Some(name) => match u32_at(b, p1) {
                Read::Done(len, p2) => match bytes_at(b, p2, len as int) {
                    Read::Done(info, p3) => Read::Done(AttributeModel { name, info }, p3),
                    _ => Read::Fail(LoadFailure::EndOfInput),
                },
                _ => Read::Fail(LoadFailure::EndOfInput),
            },
            None => Read::Abort,
        },
        _ => Read::Fail(LoadFailure::EndOfInput),
    }
}

pub open spec fn attribute_item(pool: Seq<EntryModel>) -> spec_fn(Seq<u8>, int) -> Read<
    AttributeModel,
> {
    |b: Seq<u8>, p: int| attribute_at(b, p, pool)
}

/// Reading a field or a method: its flags, name and descriptor indices, and its attributes.
pub open spec fn member_at(b: Seq<u8>, p: int, pool: Seq<EntryModel>) -> Read<MemberModel> {
    match u16_at(b, p) {
        Read::Done(access_flags, p1) => match u16_at(b, p1) {
            Read::Done(name_idx, p2) => match u16_at(b, p2) {
                Read::Done(descriptor_idx, p3) => match u16_at(b, p3) {
                    Read::Done(n, p4) => match read_list(b, p4, n as nat, attribute_item(pool)) {
                        Read::Done(attributes, p5) => Read::Done(
                            MemberModel { access_flags, name_idx, descriptor_idx, attributes },
                            p5,
                        ),
                        Read::Fail(e) => Read::Fail(e),
                        Read::Abort => Read::Abort,
                    },
                    _ => Read::Fail(LoadFailure::EndOfInput),
                },
                _ => Read::Fail(LoadFailure::EndOfInput),
            },
            _ => Read::Fail(LoadFailure::EndOfInput),
        },
        _ => Read::Fail(LoadFailure::EndOfInput),
    }
}

pub open spec fn member_item(pool: Seq<EntryModel>) -> spec_fn(Seq<u8>, int) -> Read<MemberModel> {
    |b: Seq<u8>, p: int| member_at(b, p, pool)
}

pub open spec fn entry_item() -> spec_fn(Seq<u8>, int) -> Read<EntryModel> {
    |b: Seq<u8>, p: int| entry_at(b, p)
}

pub open spec fn index_item() -> spec_fn(Seq<u8>, int) -> Read<u16> {
    |b: Seq<u8>, p: int| u16_at(b, p)
}

/// Reading the fields, methods and attributes of a class, `count` of each: the counts of
/// methods and of attributes are read and then passed over. Where the bytes end right here,
/// the class has none of them.
pub open spec fn body_at(b: Seq<u8>, p: int, head: ClassModel) -> Read<ClassModel> {
    if p == b.len() {
        Read::Done(ClassModel { fields: Seq::empty(), methods: Seq::empty(), attributes: Seq::empty(), ..head }, p)
    } else {
        match u16_at(b, p) {
            Read::Done(count, p1) => match read_list(b, p1, count as nat, member_item(head.const_pool)) {
                Read::Done(fields, p2) => match u16_at(b, p2) {
                    Read::Done(_, p3) => match read_list(b, p3, count as nat, member_item(head.const_pool)) {
                        Read::Done(methods, p4) => match u16_at(b, p4) {
                            Read::Done(_, p5) => match read_list(b, p5, count as nat, attribute_item(head.const_pool)) {
                                Read::Done(attributes, p6) => Read::Done(
                                    ClassModel { fields, methods, attributes, ..head },
                                    p6,
                                ),
                                Read::Fail(e) => Read::Fail(e),
                                Read::Abort => Read::Abort,
                            },
                            _ => Read::Fail(LoadFailure::EndOfInput),
                        },
                        Read::Fail(e) => Read::Fail(e),
                        Read::Abort => Read::Abort,
                    },
                    _ => Read::Fail(LoadFailure::EndOfInput),
                },
                Read::Fail(e) => Read::Fail(e),
                Read::Abort => Read::Abort,
            },
            _ => Read::Fail(LoadFailure::EndOfInput),
        }
    }
}

/// Reading what follows the constant pool: flags, this and super class, the interfaces and the
/// body.
pub open spec fn info_at(b: Seq<u8>, p: int, head: ClassModel) -> Read<ClassModel> {
    match u16_at(b, p) {
        Read::Done(access_flags, p1) => match u16_at(b, p1) {
            Read::Done(this_class, p2) => match u16_at(b, p2) {
                Read::Done(super_class, p3) => match u16_at(b, p3) {
                    Read::Done(n, p4) => match read_list(b, p4, n as nat, index_item()) {
                        Read::Done(interfaces, p5) => body_at(
                            b,
                            p5,
                            ClassModel { access_flags, this_class, super_class, interfaces, ..head },
                        ),
                        Read::Fail(e) => Read::Fail(e),
                        Read::Abort => Read::Abort,
                    },
                    _ => Read::Fail(LoadFailure::EndOfInput),
                },
                _ => Read::Fail(LoadFailure::EndOfInput),
            },
            _ => Read::Fail(LoadFailure::EndOfInput),
        },
        _ => Read::Fail(LoadFailure::EndOfInput),
    }
}

/// The class read so far after its version and constant pool.
pub open spec fn head_model(version: Version, const_pool: Seq<EntryModel>) -> ClassModel {
    ClassModel {
        version,
        const_pool,
        access_flags: 0,
        this_class: 0,
        super_class: 0,
        interfaces: Seq::empty(),
        fields: Seq::empty(),
        methods: Seq::empty(),
        attributes: Seq::empty(),
    }
}

/// Reading a class file: the magic number, the version, the constant pool count and one entry
/// fewer than it says, then the rest. A count of zero stops the program.
pub open spec fn class_at(b: Seq<u8>, p: int) -> Read<ClassModel> {
    match u32_at(b, p) {
        Read::Done(magic, p1) => if magic != MAGIC {
            Read::Fail(LoadFailure::Message(bad_magic_code_message()))
        } else {
            match version_at(b, p1) {
                Read::Done(version, p2) => match u16_at(b, p2) {
                    Read::Done(count, p3) => if count == 0 {
                        Read::Abort
                    } else {
                        match read_list(b, p3, (count - 1) as nat, entry_item()) {
                            Read::Done(pool, p4) => info_at(b, p4, head_model(version, pool)),
                            Read::Fail(e) => Read::Fail(e),
                            Read::Abort => Read::Abort,
                        }
                    },
                    _ => Read::Fail(LoadFailure::EndOfInput),
                },
                _ => Read::Fail(LoadFailure::EndOfInput),
            }
        },
        _ => Read::Fail(LoadFailure::EndOfInput),
    }
}

// ---------------------------------------------------------------------------------------------
// The reader.
// ---------------------------------------------------------------------------------------------

/// The error for an unknown constant pool tag.
fn unknown_pool_tag(tag: u8) -> (e: LoadError)
    ensures
        e@ == LoadFailure::Message(unknown_pool_tag_message(tag)),
{
    let mut m = String::from_str("Unknown Constant Pool tag ");
    if tag >= 100 {
        push_char(&mut m, digit_char(tag / 100));
    }
    if tag >= 10 {
        push_char(&mut m, digit_char((tag / 10) % 10));
    }
    push_char(&mut m, digit_char(tag % 10));
    proof {
        reveal_strlit("Unknown Constant Pool tag ");
        assert(m@ =~= unknown_pool_tag_message(tag));
    }
    LoadError::Simple(m)
}

/// Reads the structures of a class file one after the other from a buffer of bytes.
pub struct Reader<'a> {
    parser: Parser<'a>,
}

impl<'a> Reader<'a> {
    /// The bytes being read.
    pub closed spec fn data(&self) -> Seq<u8> {
        self.parser.data()
    }

    /// The position of the next byte to read.
    pub closed spec fn pos(&self) -> int {
        self.parser.pos()
    }

    pub closed spec fn wf(&self) -> bool {
        self.parser.wf()
    }

    /// A reader at the start of `reader`.
    pub fn new(reader: &'a [u8]) -> (r: Self)
        ensures
            r.wf(),
            r.data() == reader@,
            r.pos() == 0,
    {
        Reader { parser: Parser::new(reader) }
    }

    /// Read a version: minor number, then major number.
    pub fn read_version(&mut self) -> (res: Result<Version, LoadError>)
        requires
            old(self).wf(),
        ensures
            final(self).wf(),
            final(self).data() == old(self).data(),
            yields(res, version_at(old(self).data(), old(self).pos()), final(self).pos()),
    {
        let minor = self.parser.read_u16()?;
        let major = self.parser.read_u16()?;
        Ok(Version { major, minor })
    }

    /// Read a big-endian IEEE 754 single, as its bits.
    pub fn read_f32(&mut self) -> (res: Result<u32, LoadError>)
        requires
            old(self).wf(),
        ensures
            final(self).wf(),
            final(self).data() == old(self).data(),
            yields(res, u32_at(old(self).data(), old(self).pos()), final(self).pos()),
    {
        self.parser.read_u32()
    }

    fn read_u64(&mut self) -> (res: Result<u64, LoadError>)
        requires
            old(self).wf(),
        ensures
            final(self).wf(),
            final(self).data() == old(self).data(),
            yields(res, u64_at(old(self).data(), old(self).pos()), final(self).pos()),
    {
        let hi = self.parser.read_u32()?;
        let lo = self.parser.read_u32()?;
        Ok((hi as u64) * 0x1_0000_0000 + (lo as u64))
    }

    fn read_utf8(&mut self, length: usize) -> (res: Result<String, LoadError>)
        requires
            old(self).wf(),
        ensures
            final(self).wf(),
            final(self).data() == old(self).data(),
            match bytes_at(old(self).data(), old(self).pos(), length as int) {
                Read::Done(bs, q) => match utf8_entry(bs, q) {
                    Read::Done(e, q2) => res matches Ok(s) && e == EntryModel::Utf8(s@)
                        && final(self).pos() == q2,
                    Read::Fail(f) => res matches Err(e) && e@ == f,
                    Read::Abort => false,
                },
                Read::Fail(f) => res matches Err(e) && e@ == f,
                Read::Abort => false,
            },
    {
        let bytes = self.parser.read_length(length)?;
        match string_from_utf8(bytes) {
            Some(s) => Ok(s),
            None => Err(LoadError::simple("invalid UTF-8")),
        }
    }
    /// Read a constant pool entry: its tag, then what the tag calls for.
    pub fn read_const(&mut self) -> (res: Result<Const, LoadError>)
        requires
            old(self).wf(),
        ensures
            final(self).wf(),
            final(self).data() == old(self).data(),
            yields(res, entry_at(old(self).data(), old(self).pos()), final(self).pos()),
    {
        let tag = self.parser.read_u8()?;
        match tag {
            1 => {
                let length = self.parser.read_u16()? as usize;
                let utf8 = self.read_utf8(length)?;
                Ok(Const::Utf8 { utf8 })
            },
            3 => Ok(Const::Integer { value: self.parser.read_u32()? as i32 }),
            4 => Ok(Const::Float { bits: self.read_f32()? }),
            5 => Ok(Const::Long { long: self.read_u64()? as i64 }),
            6 => Ok(Const::Double { bits: self.read_u64()? }),
            7 => Ok(Const::Class { name_idx: self.parser.read_u16()? }),
            8 => Ok(Const::String { string_idx: self.parser.read_u16()? }),
            9 => Ok(
                Const::Field {
                    class_idx: self.parser.read_u16()?,
                    name_and_type_idx: self.parser.read_u16()?,
                },
            ),
            10 => Ok(
                Const::Method {
                    class_idx: self.parser.read_u16()?,
                    name_and_type_idx: self.parser.read_u16()?,
                },
            ),
            11 => Ok(
                Const::InterfaceMethod {
                    class_idx: self.parser.read_u16()?,
                    name_and_type_idx: self.parser.read_u16()?,
                },
            ),
            12 => Ok(
                Const::NameAndType {
                    name_idx: self.parser.read_u16()?,
                    descriptor_idx: self.parser.read_u16()?,
                },
            ),
            15 => Ok(
                Const::MethodHandle {
                    reference_kind: self.parser.read_u8()?,
                    reference_idx: self.parser.read_u16()?,
                },
            ),
            16 => Ok(Const::MethodType { descriptor_idx: self.parser.read_u16()? }),
            18 => Ok(
                Const::InvokeDynamic {
                    bootstrap_idx: self.parser.read_u16()?,
                    name_and_type_idx: self.parser.read_u16()?,
                },
            ),
            _ => Err(unknown_pool_tag(tag)),
        }
    }
    /// Read an attribute, named by the string constant of `const_pool` its first two bytes
    /// point to.
    pub fn read_attribute(&mut self, const_pool: &[Const]) -> (res: Result<Attribute, LoadError>)
        requires
            old(self).wf(),
            !(attribute_at(old(self).data(), old(self).pos(), pool_models(const_pool@)) is Abort),
        ensures
            final(self).wf(),
            final(self).data() == old(self).data(),
            yields(
                res,
                attribute_at(old(self).data(), old(self).pos(), pool_models(const_pool@)),
                final(self).pos(),
            ),
    {
        let ghost pool = pool_models(const_pool@);
        let name_idx = self.parser.read_u16()? as usize;
        proof {
            assert(pool[name_idx - 1] == const_pool@[name_idx - 1]@);
        }
        let name = match &const_pool[name_idx - 1] {
            Const::Utf8 { utf8 } => utf8.clone(),
            _ => unreached(),
        };
        let length = self.parser.read_u32()? as usize;
        let info = self.parser.read_length(length)?;
        Ok(Attribute::Other { name, info })
    }

    /// Read `count` attributes.
    fn read_attributes(&mut self, count: u16, const_pool: &[Const]) -> (res: Result<
        Vec<Attribute>,
        LoadError,
    >)
        requires
            old(self).wf(),
            !(read_list(
                old(self).data(),
                old(self).pos(),
                count as nat,
                attribute_item(pool_models(const_pool@)),
            ) is Abort),
        ensures
            final(self).wf(),
            final(self).data() == old(self).data(),
            yields_list(
                res,
                read_list(
                    old(self).data(),
                    old(self).pos(),
                    count as nat,
                    attribute_item(pool_models(const_pool@)),
                ),
                final(self).pos(),
            ),
    {
        let ghost b = self.data();
        let ghost pool = pool_models(const_pool@);
        let ghost whole = read_list(b, self.pos(), count as nat, attribute_item(pool));
        proof {
            lemma_list_start(whole);
        }
        let mut attributes: Vec<Attribute> = Vec::new();
        let mut i: u16 = 0;
        while i < count
            invariant
                self.wf(),
                self.data() == b,
                b == old(self).data(),
                pool == pool_models(const_pool@),
                whole == read_list(b, old(self).pos(), count as nat, attribute_item(pool)),
                !(whole is Abort),
                i <= count,
                attributes@.len() == i,
                whole == continue_list(
                    attribute_models(attributes@),
                    read_list(b, self.pos(), (count - i) as nat, attribute_item(pool)),
                ),
            decreases count - i,
        {
            let ghost p = self.pos();
            let ghost done = attribute_models(attributes@);
            proof {
                if attribute_at(b, p, pool) is Abort {
                    lemma_list_stop(b, p, (count - i) as nat, attribute_item(pool), done);
                }
            }
            let r = self.read_attribute(const_pool);
            proof {
                if r is Ok {
                    lemma_list_step(b, p, (count - i) as nat, attribute_item(pool), done);
                } else {
                    lemma_list_stop(b, p, (count - i) as nat, attribute_item(pool), done);
                }
            }
            let attribute = r?;
            attributes.push(attribute);
            proof {
                assert(attribute_models(attributes@) =~= done.push(attribute@));
            }
            i += 1;
        }
        proof {
            lemma_list_end(b, self.pos(), attribute_item(pool), attribute_models(attributes@));
        }
        Ok(attributes)
    }

    /// Read a field: flags, name and descriptor indices, and its attributes.
    pub fn read_field(&mut self, const_pool: &[Const]) -> (res: Result<Field, LoadError>)
        requires
            old(self).wf(),
            !(member_at(old(self).data(), old(self).pos(), pool_models(const_pool@)) is Abort),
        ensures
            final(self).wf(),
            final(self).data() == old(self).data(),
            yields(
                res,
                member_at(old(self).data(), old(self).pos(), pool_models(const_pool@)),
                final(self).pos(),
            ),
    {
        let access_flags = self.parser.read_u16()?;
        let name_idx = self.parser.read_u16()?;
        let descriptor_idx = self.parser.read_u16()?;
        let attributes_count = self.parser.read_u16()?;
        let attributes = self.read_attributes(attributes_count, const_pool)?;
        Ok(Field { access_flags, name_idx, descriptor_idx, attributes })
    }

    /// Read a method: flags, name and descriptor indices, and its attributes.
    pub fn read_method(&mut self, const_pool: &[Const]) -> (res: Result<Method, LoadError>)
        requires
            old(self).wf(),
            !(member_at(old(self).data(), old(self).pos(), pool_models(const_pool@)) is Abort),
        ensures
            final(self).wf(),
            final(self).data() == old(self).data(),
            yields(
                res,
                member_at(old(self).data(), old(self).pos(), pool_models(const_pool@)),
                final(self).pos(),
            ),
    {
        let access_flags = self.parser.read_u16()?;
        let name_idx = self.parser.read_u16()?;
        let descriptor_idx = self.parser.read_u16()?;
        let attributes_count = self.parser.read_u16()?;
        let attributes = self.read_attributes(attributes_count, const_pool)?;
        Ok(Method { access_flags, name_idx, descriptor_idx, attributes })
    }
    /// Read `count` constant pool entries.
    fn read_consts(&mut self, count: u16) -> (res: Result<Vec<Const>, LoadError>)
        requires
            old(self).wf(),
        ensures
            final(self).wf(),
            final(self).data() == old(self).data(),
            !(read_list(old(self).data(), old(self).pos(), count as nat, entry_item()) is Abort)
                ==> yields_list(
                res,
                read_list(old(self).data(), old(self).pos(), count as nat, entry_item()),
                final(self).pos(),
            ),
    {
        let ghost b = self.data();
        let ghost whole = read_list(b, self.pos(), count as nat, entry_item());
        proof {
            lemma_list_start(whole);
        }
        let mut entries: Vec<Const> = Vec::new();
        let mut i: u16 = 0;
        while i < count
            invariant
                self.wf(),
                self.data() == b,
                b == old(self).data(),
                whole == read_list(b, old(self).pos(), count as nat, entry_item()),
                i <= count,
                entries@.len() == i,
                whole == continue_list(
                    pool_models(entries@),
                    read_list(b, self.pos(), (count - i) as nat, entry_item()),
                ),
            decreases count - i,
        {
            let ghost p = self.pos();
            let ghost done = pool_models(entries@);
            let r = self.read_const();
            proof {
                if r is Ok {
                    lemma_list_step(b, p, (count - i) as nat, entry_item(), done);
                } else {
                    lemma_list_stop(b, p, (count - i) as nat, entry_item(), done);
                }
            }
            let entry = r?;
            entries.push(entry);
            proof {
                assert(pool_models(entries@) =~= done.push(entry@));
            }
            i += 1;
        }
        proof {
            lemma_list_end(b, self.pos(), entry_item(), pool_models(entries@));
        }
        Ok(entries)
    }

    /// Read `count` constant pool indices.
    fn read_indices(&mut self, count: u16) -> (res: Result<Vec<u16>, LoadError>)
        requires
            old(self).wf(),
        ensures
            final(self).wf(),
            final(self).data() == old(self).data(),
            match read_list(old(self).data(), old(self).pos(), count as nat, index_item()) {
                Read::Done(xs, q) => res matches Ok(v) && v@ == xs && final(self).pos() == q,
                Read::Fail(f) => res matches Err(e) && e@ == f,
                Read::Abort => true,
            },
    {
        let ghost b = self.data();
        let ghost whole = read_list(b, self.pos(), count as nat, index_item());
        proof {
            lemma_list_start(whole);
        }
        let mut indices: Vec<u16> = Vec::new();
        let mut i: u16 = 0;
        while i < count
            invariant
                self.wf(),
                self.data() == b,
                b == old(self).data(),
                whole == read_list(b, old(self).pos(), count as nat, index_item()),
                i <= count,
                indices@.len() == i,
                whole == continue_list(
                    indices@,
                    read_list(b, self.pos(), (count - i) as nat, index_item()),
                ),
            decreases count - i,
        {
            let ghost p = self.pos();
            let ghost done = indices@;
            let r = self.parser.read_u16();
            proof {
                if r is Ok {
                    lemma_list_step(b, p, (count - i) as nat, index_item(), done);
                } else {
                    lemma_list_stop(b, p, (count - i) as nat, index_item(), done);
                }
            }
            let index = r?;
            indices.push(index);
            i += 1;
        }
        proof {
            lemma_list_end(b, self.pos(), index_item(), indices@);
        }
        Ok(indices)
    }

    /// Read `count` fields.
    fn read_fields(&mut self, count: u16, const_pool: &[Const]) -> (res: Result<Vec<Field>, LoadError>)
        requires
            old(self).wf(),
            !(read_list(
                old(self).data(),
                old(self).pos(),
                count as nat,
                member_item(pool_models(const_pool@)),
            ) is Abort),
        ensures
            final(self).wf(),
            final(self).data() == old(self).data(),
            yields_list(
                res,
                read_list(
                    old(self).data(),
                    old(self).pos(),
                    count as nat,
                    member_item(pool_models(const_pool@)),
                ),
                final(self).pos(),
            ),
    {
        let ghost b = self.data();
        let ghost pool = pool_models(const_pool@);
        let ghost whole = read_list(b, self.pos(), count as nat, member_item(pool));
        proof {
            lemma_list_start(whole);
        }
        let mut fields: Vec<Field> = Vec::new();
        let mut i: u16 = 0;
        while i < count
            invariant
                self.wf(),
                self.data() == b,
                b == old(self).data(),
                pool == pool_models(const_pool@),
                whole == read_list(b, old(self).pos(), count as nat, member_item(pool)),
                !(whole is Abort),
                i <= count,
                fields@.len() == i,
                whole == continue_list(
                    fields@.map_values(|f: Field| f@),
                    read_list(b, self.pos(), (count - i) as nat, member_item(pool)),
                ),
            decreases count - i,
        {
            let ghost p = self.pos();
            let ghost done = fields@.map_values(|f: Field| f@);
            proof {
                if member_at(b, p, pool) is Abort {
                    lemma_list_stop(b, p, (count - i) as nat, member_item(pool), done);
                }
            }
            let r = self.read_field(const_pool);
            proof {
                if r is Ok {
                    lemma_list_step(b, p, (count - i) as nat, member_item(pool), done);
                } else {
                    lemma_list_stop(b, p, (count - i) as nat, member_item(pool), done);
                }
            }
            let field = r?;
            fields.push(field);
            proof {
                assert(fields@.map_values(|f: Field| f@) =~= done.push(field@));
            }
            i += 1;
        }
        proof {
            lemma_list_end(b, self.pos(), member_item(pool), fields@.map_values(|f: Field| f@));
        }
        Ok(fields)
    }

    /// Read `count` methods.
    fn read_methods(&mut self, count: u16, const_pool: &[Const]) -> (res: Result<Vec<Method>, LoadError>)
        requires
            old(self).wf(),
            !(read_list(
                old(self).data(),
                old(self).pos(),
                count as nat,
                member_item(pool_models(const_pool@)),
            ) is Abort),
        ensures
            final(self).wf(),
            final(self).data() == old(self).data(),
            yields_list(
                res,
                read_list(
                    old(self).data(),
                    old(self).pos(),
                    count as nat,
                    member_item(pool_models(const_pool@)),
                ),
                final(self).pos(),
            ),
    {
        let ghost b = self.data();
        let ghost pool = pool_models(const_pool@);
        let ghost whole = read_list(b, self.pos(), count as nat, member_item(pool));
        proof {
            lemma_list_start(whole);
        }
        let mut methods: Vec<Method> = Vec::new();
        let mut i: u16 = 0;
        while i < count
            invariant
                self.wf(),
                self.data() == b,
                b == old(self).data(),
                pool == pool_models(const_pool@),
                whole == read_list(b, old(self).pos(), count as nat, member_item(pool)),
                !(whole is Abort),
                i <= count,
                methods@.len() == i,
                whole == continue_list(
                    methods@.map_values(|m: Method| m@),
                    read_list(b, self.pos(), (count - i) as nat, member_item(pool)),
                ),
            decreases count - i,
        {
            let ghost p = self.pos();
            let ghost done = methods@.map_values(|m: Method| m@);
            proof {
                if member_at(b, p, pool) is Abort {
                    lemma_list_stop(b, p, (count - i) as nat, member_item(pool), done);
                }
            }
            let r = self.read_method(const_pool);
            proof {
                if r is Ok {
                    lemma_list_step(b, p, (count - i) as nat, member_item(pool), done);
                } else {
                    lemma_list_stop(b, p, (count - i) as nat, member_item(pool), done);
                }
            }
            let method = r?;
            methods.push(method);
            proof {
                assert(methods@.map_values(|m: Method| m@) =~= done.push(method@));
            }
            i += 1;
        }
        proof {
            lemma_list_end(b, self.pos(), member_item(pool), methods@.map_values(|m: Method| m@));
        }
        Ok(methods)
    }
    /// Read the fields, methods and attributes of a class, `count` of each, into `class_file`;
    /// where the bytes end right here, the class has none.
    fn read_body(&mut self, class_file: ClassFile) -> (res: Result<ClassFile, LoadError>)
        requires
            old(self).wf(),
            !(body_at(old(self).data(), old(self).pos(), class_file@) is Abort),
        ensures
            final(self).wf(),
            final(self).data() == old(self).data(),
            yields(res, body_at(old(self).data(), old(self).pos(), class_file@), final(self).pos()),
    {
        let mut class_file = class_file;
        if self.parser.remaining() == 0 {
            class_file.fields = Vec::new();
            class_file.methods = Vec::new();
            class_file.attributes = Vec::new();
            proof {
                assert(class_file@.fields =~= Seq::empty());
                assert(class_file@.methods =~= Seq::empty());
                assert(class_file@.attributes =~= Seq::empty());
            }
            return Ok(class_file);
        }
        let fields_count = self.parser.read_u16()?;
        class_file.fields = self.read_fields(fields_count, class_file.const_pool.as_slice())?;
        let _methods_count = self.parser.read_u16()?;
        class_file.methods = self.read_methods(fields_count, class_file.const_pool.as_slice())?;
        let _attributes_count = self.parser.read_u16()?;
        class_file.attributes = self.read_attributes(
            fields_count,
            class_file.const_pool.as_slice(),
        )?;
        Ok(class_file)
    }

    /// Read a whole class file: the magic number, the version, the constant pool, the flags,
    /// this and the super class, the interfaces, then fields, methods and attributes.
    pub fn read_class_file(&mut self) -> (res: Result<ClassFile, LoadError>)
        requires
            old(self).wf(),
            !(class_at(old(self).data(), old(self).pos()) is Abort),
        ensures
            final(self).wf(),
            final(self).data() == old(self).data(),
            yields(res, class_at(old(self).data(), old(self).pos()), final(self).pos()),
    {
        let magic = self.parser.read_u32()?;
        if magic != MAGIC {
            return Err(LoadError::simple("Expected Magic Code 0xCAFEBABE"));
        }
        let version = self.read_version()?;
        let const_pool_count = self.parser.read_u16()?;
        let const_pool = self.read_consts(const_pool_count - 1)?;
        let ghost pool = pool_models(const_pool@);
        let access_flags = self.parser.read_u16()?;
        let this_class = self.parser.read_u16()?;
        let super_class = self.parser.read_u16()?;
        let interfaces_count = self.parser.read_u16()?;
        let interfaces = self.read_indices(interfaces_count)?;
        let class_file = ClassFile {
            version,
            const_pool,
            access_flags,
            this_class,
            super_class,
            interfaces,
            fields: Vec::new(),
            methods: Vec::new(),
            attributes: Vec::new(),
        };
        proof {
            assert(class_file@.fields =~= Seq::empty());
            assert(class_file@.methods =~= Seq::empty());
            assert(class_file@.attributes =~= Seq::empty());
            assert(class_file@ == ClassModel {
                access_flags,
                this_class,
                super_class,
                interfaces: interfaces@,
                ..head_model(version, pool)
            });
        }
        self.read_body(class_file)
    }
}

} // verus!
