//! Reading the class file structure from its bytes.

use std::collections::HashMap;

use vstd::prelude::*;
use vstd::utf8::valid_utf8;

use crate::binary::{be16, be32, bytes_equal, copy_bytes, read_be16, read_be32};
use crate::class_file::{
    ClassAttribute,
    ClassAttributeModel,
    ClassFile,
    ClassFileModel,
    Code,
    CodeAttribute,
    CodeAttributeModel,
    CodeModel,
    ExHandler,
    Field,
    LineNumber,
    LineNumberTable,
    MAGIC,
    Method,
    MethodAttribute,
    MethodAttributeModel,
    MethodModel,
    SourceFile,
    UnknownAttribute,
    pool_model,
};
use crate::class_file::const_pool;
use crate::class_file::const_pool::{
    Class,
    Const,
    ConstModel,
    FieldRef,
    Integer,
    MethodRef,
    NameAndType,
    Utf8,
};
use crate::text::push_char;

verus! {

broadcast use vstd::std_specs::hash::group_hash_axioms;

// ---------------------------------------------------------------------------------------------
// The format, as spec functions over the bytes of a class file.
// ---------------------------------------------------------------------------------------------

/// Why reading a class file failed.
pub enum LoadFailure {
    /// The bytes ended before the structure did.
    EndOfInput,
    /// The bytes are not a class file; the message says why.
    Message(Seq<char>),
}

/// The outcome of reading a structure at a position.
pub enum Read<T> {
    /// The structure, and the position just after it.
    Done(T, int),
    Fail(LoadFailure),
    /// The original stops the program on these bytes.
    Abort,
}

pub open spec fn u8_at(b: Seq<u8>, p: int) -> Read<u8> {
    if 0 <= p && p + 1 <= b.len() {
        Read::Done(b[p], p + 1)
    } else {
        Read::Fail(LoadFailure::EndOfInput)
    }
}

pub open spec fn u16_at(b: Seq<u8>, p: int) -> Read<u16> {
    if 0 <= p && p + 2 <= b.len() {
        Read::Done(be16(b, p), p + 2)
    } else {
        Read::Fail(LoadFailure::EndOfInput)
    }
}

pub open spec fn u32_at(b: Seq<u8>, p: int) -> Read<u32> {
    if 0 <= p && p + 4 <= b.len() {
        Read::Done(be32(b, p), p + 4)
    } else {
        Read::Fail(LoadFailure::EndOfInput)
    }
}

pub open spec fn i32_at(b: Seq<u8>, p: int) -> Read<i32> {
    if 0 <= p && p + 4 <= b.len() {
        Read::Done(be32(b, p) as i32, p + 4)
    } else {
        Read::Fail(LoadFailure::EndOfInput)
    }
}

pub open spec fn bytes_at(b: Seq<u8>, p: int, n: int) -> Read<Seq<u8>> {
    if 0 <= p && 0 <= n && p + n <= b.len() {
        Read::Done(b.subrange(p, p + n), p + n)
    } else {
        Read::Fail(LoadFailure::EndOfInput)
    }
}

/// Reading `n` structures one after the other.
pub open spec fn read_list<T>(
    b: Seq<u8>,
    p: int,
    n: nat,
    item: spec_fn(Seq<u8>, int) -> Read<T>,
) -> Read<Seq<T>>
    decreases n,
{
    if n == 0 {
        Read::Done(Seq::empty(), p)
    } else {
        match item(b, p) {
            Read::Done(x, q) => match read_list(b, q, (n - 1) as nat, item) {
                Read::Done(xs, r) => Read::Done(seq![x] + xs, r),
                Read::Fail(e) => Read::Fail(e),
                Read::Abort => Read::Abort,
            },
            Read::Fail(e) => Read::Fail(e),
            Read::Abort => Read::Abort,
        }
    }
}

/// The rest of a list read after `done` was read.
pub open spec fn continue_list<T>(done: Seq<T>, rest: Read<Seq<T>>) -> Read<Seq<T>> {
    match rest {
        Read::Done(xs, r) => Read::Done(done + xs, r),
        Read::Fail(e) => Read::Fail(e),
        Read::Abort => Read::Abort,
    }
}

/// Reading one more item of a list moves it from the rest to what was read.
pub proof fn lemma_list_step<T>(
    b: Seq<u8>,
    p: int,
    n: nat,
    item: spec_fn(Seq<u8>, int) -> Read<T>,
    done: Seq<T>,
)
    requires
        n > 0,
        item(b, p) is Done,
    ensures
        continue_list(done, read_list(b, p, n, item)) == continue_list(
            done.push(item(b, p)->Done_0),
            read_list(b, item(b, p)->Done_1, (n - 1) as nat, item),
        ),
{
    let x = item(b, p)->Done_0;
    match read_list(b, item(b, p)->Done_1, (n - 1) as nat, item) {
        Read::Done(xs, r) => {
            assert(done + (seq![x] + xs) =~= done.push(x) + xs);
        },
        _ => {},
    }
}

/// A list whose next item cannot be read fails, or stops the program, as that item does.
pub proof fn lemma_list_stop<T>(
    b: Seq<u8>,
    p: int,
    n: nat,
    item: spec_fn(Seq<u8>, int) -> Read<T>,
    done: Seq<T>,
)
    requires
        n > 0,
        !(item(b, p) is Done),
    ensures
        continue_list(done, read_list(b, p, n, item)) == match item(b, p) {
            Read::Fail(e) => Read::<Seq<T>>::Fail(e),
            _ => Read::<Seq<T>>::Abort,
        },
        item(b, p) is Abort ==> read_list(b, p, n, item) is Abort,
{
}

/// Nothing read yet: the rest is the whole list.
pub proof fn lemma_list_start<T>(r: Read<Seq<T>>)
    ensures
        continue_list(Seq::<T>::empty(), r) == r,
{
    match r {
        Read::Done(xs, q) => {
            assert(Seq::<T>::empty() + xs =~= xs);
        },
        _ => {},
    }
}

/// Nothing left to read: the list is what was read.
pub proof fn lemma_list_end<T>(
    b: Seq<u8>,
    p: int,
    item: spec_fn(Seq<u8>, int) -> Read<T>,
    done: Seq<T>,
)
    ensures
        continue_list(done, read_list(b, p, 0, item)) == Read::Done(done, p),
{
    assert(done + Seq::<T>::empty() =~= done);
}

/// The message of the error for an unknown constant tag.
pub open spec fn unknown_tag_message(tag: u8) -> Seq<char> {
    "unknown tag "@ + decimal(tag)
}

/// The decimal digit for `d`.
pub open spec fn digit(d: int) -> char {
    if d == 0 { '0' }
    else if d == 1 { '1' }
    else if d == 2 { '2' }
    else if d == 3 { '3' }
    else if d == 4 { '4' }
    else if d == 5 { '5' }
    else if d == 6 { '6' }
    else if d == 7 { '7' }
    else if d == 8 { '8' }
    else { '9' }
}

/// The decimal representation of `n`, without leading zeros.
pub open spec fn decimal(n: u8) -> Seq<char> {
    if n < 10 {
        seq![digit(n as int)]
    } else if n < 100 {
        seq![digit(n as int / 10), digit(n as int % 10)]
    } else {
        seq![digit(n as int / 100), digit((n as int / 10) % 10), digit(n as int % 10)]
    }
}

/// Reading one constant pool entry.
pub open spec fn const_at(b: Seq<u8>, p: int) -> Read<ConstModel> {
    match u8_at(b, p) {
        Read::Done(tag, p1) => {
            if tag == 1 {
                match u16_at(b, p1) {
                    Read::Done(len, p2) => match bytes_at(b, p2, len as int) {
                        Read::Done(bs, p3) => Read::Done(ConstModel::Utf8(bs), p3),
                        _ => Read::Fail(LoadFailure::EndOfInput),
                    },
                    _ => Read::Fail(LoadFailure::EndOfInput),
                }
            } else if tag == 3 {
                match i32_at(b, p1) {
                    Read::Done(v, p2) => Read::Done(ConstModel::Integer(v), p2),
                    _ => Read::Fail(LoadFailure::EndOfInput),
                }
            } else if tag == 7 || tag == 8 {
                match u16_at(b, p1) {
                    Read::Done(v, p2) => Read::Done(
                        if tag == 7 { ConstModel::Class(v) } else { ConstModel::String(v) },
                        p2,
                    ),
                    _ => Read::Fail(LoadFailure::EndOfInput),
                }
            } else if tag == 9 || tag == 10 || tag == 12 {
                match u16_at(b, p1) {
                    Read::Done(x, p2) => match u16_at(b, p2) {
                        Read::Done(y, p3) => Read::Done(
                            if tag == 9 {
                                ConstModel::FieldRef(x, y)
                            } else if tag == 10 {
                                ConstModel::MethodRef(x, y)
                            } else {
                                ConstModel::NameAndType(x, y)
                            },
                            p3,
                        ),
                        _ => Read::Fail(LoadFailure::EndOfInput),
                    },
                    _ => Read::Fail(LoadFailure::EndOfInput),
                }
            } else {
                Read::Fail(LoadFailure::Message(unknown_tag_message(tag)))
            }
        },
        _ => Read::Fail(LoadFailure::EndOfInput),
    }
}

/// Reading the constant pool entries with indices `idx` up to (not including) `count`, each
/// entry taking one index, into `pool`.
pub open spec fn consts_from(
    b: Seq<u8>,
    p: int,
    idx: int,
    count: int,
    pool: Map<u16, ConstModel>,
) -> Read<Map<u16, ConstModel>>
    decreases count - idx,
{
    if idx >= count {
        Read::Done(pool, p)
    } else {
        match const_at(b, p) {
            Read::Done(c, q) => consts_from(b, q, idx + 1, count, pool.insert(idx as u16, c)),
            Read::Fail(e) => Read::Fail(e),
            Read::Abort => Read::Abort,
        }
    }
}

/// Skipping one attribute of a field: its name index, its length and that many bytes.
pub open spec fn field_attribute_at(b: Seq<u8>, p: int) -> Read<()> {
    match u16_at(b, p) {
        Read::Done(_, p1) => match u32_at(b, p1) {
            Read::Done(len, p2) => match bytes_at(b, p2, len as int) {
                Read::Done(_, p3) => Read::Done((), p3),
                _ => Read::Fail(LoadFailure::EndOfInput),
            },
            _ => Read::Fail(LoadFailure::EndOfInput),
        },
        _ => Read::Fail(LoadFailure::EndOfInput),
    }
}

/// Reading a field; its attributes are skipped.
pub open spec fn field_at(b: Seq<u8>, p: int) -> Read<Field> {
    match u16_at(b, p) {
        Read::Done(access_flags, p1) => match u16_at(b, p1) {
            Read::Done(name, p2) => match u16_at(b, p2) {
                Read::Done(descriptor, p3) => match u16_at(b, p3) {
                    Read::Done(n, p4) => match read_list(
                        b,
                        p4,
                        n as nat,
                        field_attribute_item(),
                    ) {
                        Read::Done(_, p5) => Read::Done(Field { access_flags, name, descriptor }, p5),
                        _ => Read::Fail(LoadFailure::EndOfInput),
                    },
                    _ => Read::Fail(LoadFailure::EndOfInput),
                },
                _ => Read::Fail(LoadFailure::EndOfInput),
            },
            _ => Read::Fail(LoadFailure::EndOfInput),
        },
        _ => Read::Fail(LoadFailure::EndOfInput),
    }
}

/// The message of the error for an attribute whose name is not a `Utf8` entry of the pool
/// holding valid UTF-8.
pub open spec fn attribute_name_message() -> Seq<char> {
    "invalid attribute name"@
}

/// The message of the error for a `SourceFile` attribute whose length is not 2.
pub open spec fn source_file_length_message() -> Seq<char> {
    "invalid SourceFile attribute"@
}

/// The bytes of the attribute name at `idx` of the pool, when it is a `Utf8` entry holding
/// valid UTF-8.
pub open spec fn pool_name(pool: Map<u16, ConstModel>, idx: u16) -> Option<Seq<u8>> {
    if pool.contains_key(idx) && pool[idx] is Utf8 && valid_utf8(pool[idx]->Utf8_0) {
        Some(pool[idx]->Utf8_0)
    } else {
        None
    }
}

/// `Code`, in UTF-8.
pub open spec fn code_name() -> Seq<u8> {
    seq![67u8, 111, 100, 101]
}

/// `SourceFile`, in UTF-8.
pub open spec fn source_file_name() -> Seq<u8> {
    seq![83u8, 111, 117, 114, 99, 101, 70, 105, 108, 101]
}

/// `LineNumberTable`, in UTF-8.
pub open spec fn line_number_table_name() -> Seq<u8> {
    seq![76u8, 105, 110, 101, 78, 117, 109, 98, 101, 114, 84, 97, 98, 108, 101]
}

/// Reading an attribute's length and that many bytes, kept as an unknown attribute.
pub open spec fn unknown_body_at(b: Seq<u8>, p: int) -> Read<Seq<u8>> {
    match u32_at(b, p) {
        Read::Done(len, p1) => bytes_at(b, p1, len as int),
        _ => Read::Fail(LoadFailure::EndOfInput),
    }
}

/// Reading one line number entry.
pub open spec fn line_number_at(b: Seq<u8>, p: int) -> Read<LineNumber> {
    match u16_at(b, p) {
        Read::Done(start_pc, p1) => match u16_at(b, p1) {
            Read::Done(line_number, p2) => Read::Done(LineNumber { start_pc, line_number }, p2),
            _ => Read::Fail(LoadFailure::EndOfInput),
        },
        _ => Read::Fail(LoadFailure::EndOfInput),
    }
}

/// Reading one attribute of a `Code` attribute.
pub open spec fn code_attribute_at(b: Seq<u8>, p: int, pool: Map<u16, ConstModel>) -> Read<
    CodeAttributeModel,
> {
    match u16_at(b, p) {
        Read::Done(name_idx, p1) => match pool_name(pool, name_idx) {
            None => Read::Fail(LoadFailure::Message(attribute_name_message())),
            Some(name) => if name == line_number_table_name() {
                match u32_at(b, p1) {
                    Read::Done(_, p2) => match u16_at(b, p2) {
                        Read::Done(n, p3) => match read_list(
                            b,
                            p3,
                            n as nat,
                            line_number_item(),
                        ) {
                            Read::Done(table, p4) => Read::Done(
                                CodeAttributeModel::LineNumberTable(table),
                                p4,
                            ),
                            _ => Read::Fail(LoadFailure::EndOfInput),
                        },
                        _ => Read::Fail(LoadFailure::EndOfInput),
                    },
                    _ => Read::Fail(LoadFailure::EndOfInput),
                }
            } else {
                match unknown_body_at(b, p1) {
                    Read::Done(bytes, p2) => Read::Done(CodeAttributeModel::Unknown(name_idx, bytes), p2),
                    _ => Read::Fail(LoadFailure::EndOfInput),
                }
            },
        },
        _ => Read::Fail(LoadFailure::EndOfInput),
    }
}

/// Reading one entry of an exception table.
pub open spec fn handler_at(b: Seq<u8>, p: int) -> Read<ExHandler> {
    match u16_at(b, p) {
        Read::Done(start_pc, p1) => match u16_at(b, p1) {
            Read::Done(end_pc, p2) => match u16_at(b, p2) {
                Read::Done(handler_pc, p3) => match u16_at(b, p3) {
                    Read::Done(catch_type, p4) => Read::Done(
                        ExHandler { start_pc, end_pc, handler_pc, catch_type },
                        p4,
                    ),
                    _ => Read::Fail(LoadFailure::EndOfInput),
                },
                _ => Read::Fail(LoadFailure::EndOfInput),
            },
            _ => Read::Fail(LoadFailure::EndOfInput),
        },
        _ => Read::Fail(LoadFailure::EndOfInput),
    }
}

/// Reading the body of a `Code` attribute, after its length.
pub open spec fn code_at(b: Seq<u8>, p: int, pool: Map<u16, ConstModel>) -> Read<CodeModel> {
    match u16_at(b, p) {
        Read::Done(max_stack, p1) => match u16_at(b, p1) {
            Read::Done(max_locals, p2) => match u32_at(b, p2) {
                Read::Done(len, p3) => match bytes_at(b, p3, len as int) {
                    Read::Done(code, p4) => match u16_at(b, p4) {
                        Read::Done(nh, p5) => match read_list(
                            b,
                            p5,
                            nh as nat,
                            handler_item(),
                        ) {
                            Read::Done(ex_table, p6) => match u16_at(b, p6) {
                                Read::Done(na, p7) => match read_list(
                                    b,
                                    p7,
                                    na as nat,
                                    code_attribute_item(pool),
                                ) {
                                    Read::Done(attributes, p8) => Read::Done(
                                        CodeModel { max_stack, max_locals, code, ex_table, attributes },
                                        p8,
                                    ),
                                    Read::Fail(e) => Read::Fail(e),
                                    Read::Abort => Read::Abort,
                                },
                                _ => Read::Fail(LoadFailure::EndOfInput),
                            },
                            _ => Read::Fail(LoadFailure::EndOfInput),
                        },
                        _ => Read::Fail(LoadFailure::EndOfInput),
                    },
                    _ => Read::Fail(LoadFailure::EndOfInput),
                },
                _ => Read::Fail(LoadFailure::EndOfInput),
            },
            _ => Read::Fail(LoadFailure::EndOfInput),
        },
        _ => Read::Fail(LoadFailure::EndOfInput),
    }
}

/// Reading one attribute of a method.
pub open spec fn method_attribute_at(b: Seq<u8>, p: int, pool: Map<u16, ConstModel>) -> Read<
    MethodAttributeModel,
> {
    match u16_at(b, p) {
        Read::Done(name_idx, p1) => match pool_name(pool, name_idx) {
            None => Read::Fail(LoadFailure::Message(attribute_name_message())),
            Some(name) => if name == code_name() {
                match u32_at(b, p1) {
                    Read::Done(_, p2) => match code_at(b, p2, pool) {
                        Read::Done(code, p3) => Read::Done(MethodAttributeModel::Code(code), p3),
                        Read::Fail(e) => Read::Fail(e),
                        Read::Abort => Read::Abort,
                    },
                    _ => Read::Fail(LoadFailure::EndOfInput),
                }
            } else {
                match unknown_body_at(b, p1) {
                    Read::Done(bytes, p2) => Read::Done(MethodAttributeModel::Unknown(name_idx, bytes), p2),
                    _ => Read::Fail(LoadFailure::EndOfInput),
                }
            },
        },
        _ => Read::Fail(LoadFailure::EndOfInput),
    }
}

/// Reading a method and its attributes.
pub open spec fn method_at(b: Seq<u8>, p: int, pool: Map<u16, ConstModel>) -> Read<MethodModel> {
    match u16_at(b, p) {
        Read::Done(access_flags, p1) => match u16_at(b, p1) {
            Read::Done(name, p2) => match u16_at(b, p2) {
                Read::Done(descriptor, p3) => match u16_at(b, p3) {
                    Read::Done(n, p4) => match read_list(
                        b,
                        p4,
                        n as nat,
                        method_attribute_item(pool),
                    ) {
                        Read::Done(attributes, p5) => Read::Done(
                            MethodModel { access_flags, name, descriptor, attributes },
                            p5,
                        ),
                        Read::Fail(e) => Read::Fail(e),
                        Read::Abort => Read::Abort,
                    },
                    _ => Read::Fail(LoadFailure::EndOfInput),
                },
                _ => Read::Fail(LoadFailure::EndOfInput),
            },
            _ => Read::Fail(LoadFailure::EndOfInput),
        },
        _ => Read::Fail(LoadFailure::EndOfInput),
    }
}

/// Reading one attribute of the class; a `SourceFile` attribute holds a two-byte index.
pub open spec fn class_attribute_at(b: Seq<u8>, p: int, pool: Map<u16, ConstModel>) -> Read<
    ClassAttributeModel,
> {
    match u16_at(b, p) {
        Read::Done(name_idx, p1) => match pool_name(pool, name_idx) {
            None => Read::Fail(LoadFailure::Message(attribute_name_message())),
            Some(name) => if name == source_file_name() {
                match u32_at(b, p1) {
                    Read::Done(len, p2) => if len != 2 {
                        Read::Fail(LoadFailure::Message(source_file_length_message()))
                    } else {
                        match u16_at(b, p2) {
                            Read::Done(source_file, p3) => Read::Done(
                                ClassAttributeModel::SourceFile(source_file),
                                p3,
                            ),
                            _ => Read::Fail(LoadFailure::EndOfInput),
                        }
                    },
                    _ => Read::Fail(LoadFailure::EndOfInput),
                }
            } else {
                match unknown_body_at(b, p1) {
                    Read::Done(bytes, p2) => Read::Done(ClassAttributeModel::Unknown(name_idx, bytes), p2),
                    _ => Read::Fail(LoadFailure::EndOfInput),
                }
            },
        },
        _ => Read::Fail(LoadFailure::EndOfInput),
    }
}

/// A list of items none of which stops the program does not stop it either.
proof fn lemma_list_never_aborts<T>(b: Seq<u8>, p: int, n: nat, item: spec_fn(Seq<u8>, int) -> Read<T>)
    requires
        forall|b2: Seq<u8>, p2: int| !(#[trigger] item(b2, p2) is Abort),
    ensures
        !(read_list(b, p, n, item) is Abort),
    decreases n,
{
    if n > 0 {
        if let Read::Done(_, q) = item(b, p) {
            lemma_list_never_aborts(b, q, (n - 1) as nat, item);
        }
    }
}

/// Reading the attributes of a `Code` attribute, of a method or of a class never stops the
/// program: each bad attribute is an error.
proof fn lemma_attributes_never_abort(pool: Map<u16, ConstModel>)
    ensures
        forall|b: Seq<u8>, p: int| !(#[trigger] code_attribute_item(pool)(b, p) is Abort),
        forall|b: Seq<u8>, p: int| !(#[trigger] code_at(b, p, pool) is Abort),
        forall|b: Seq<u8>, p: int| !(#[trigger] method_attribute_item(pool)(b, p) is Abort),
        forall|b: Seq<u8>, p: int| !(#[trigger] method_item(pool)(b, p) is Abort),
        forall|b: Seq<u8>, p: int| !(#[trigger] class_attribute_item(pool)(b, p) is Abort),
{
    assert forall|b: Seq<u8>, p: int| !(#[trigger] code_at(b, p, pool) is Abort) by {
        if let Read::Done(_, p1) = u16_at(b, p) {
            if let Read::Done(_, p2) = u16_at(b, p1) {
                if let Read::Done(len, p3) = u32_at(b, p2) {
                    if let Read::Done(_, p4) = bytes_at(b, p3, len as int) {
                        if let Read::Done(nh, p5) = u16_at(b, p4) {
                            if let Read::Done(_, p6) = read_list(b, p5, nh as nat, handler_item()) {
                                if let Read::Done(na, p7) = u16_at(b, p6) {
                                    lemma_list_never_aborts(b, p7, na as nat, code_attribute_item(pool));
                                }
                            }
                        }
                    }
                }
            }
        }
    }
    assert forall|b: Seq<u8>, p: int| !(#[trigger] method_item(pool)(b, p) is Abort) by {
        if let Read::Done(_, p1) = u16_at(b, p) {
            if let Read::Done(_, p2) = u16_at(b, p1) {
                if let Read::Done(_, p3) = u16_at(b, p2) {
                    if let Read::Done(n, p4) = u16_at(b, p3) {
                        lemma_list_never_aborts(b, p4, n as nat, method_attribute_item(pool));
                    }
                }
            }
        }
    }
}

/// Reading constant pool entries never stops the program.
proof fn lemma_consts_never_abort(b: Seq<u8>, p: int, idx: int, count: int, pool: Map<u16, ConstModel>)
    ensures
        !(consts_from(b, p, idx, count, pool) is Abort),
    decreases count - idx,
{
    if idx < count {
        if let Read::Done(c, q) = const_at(b, p) {
            lemma_consts_never_abort(b, q, idx + 1, count, pool.insert(idx as u16, c));
        }
    }
}

/// Reading a class file never stops the program: bytes that are not a class file are an error.
pub proof fn lemma_class_file_never_aborts(b: Seq<u8>)
    ensures
        !(class_file_at(b) is Abort),
{
    if let Read::Done(magic, p1) = u32_at(b, 0) {
        if magic == MAGIC {
            if let Read::Done(_, p2) = u16_at(b, p1) {
                if let Read::Done(_, p3) = u16_at(b, p2) {
                    if let Read::Done(count, p4) = u16_at(b, p3) {
                        lemma_consts_never_abort(b, p4, 1, count as int, Map::empty());
                    }
                }
            }
            if let Read::Done(head, p2) = header_at(b, p1, magic) {
                lemma_attributes_never_abort(head.const_pool);
                if let Read::Done(_, q1) = u16_at(b, p2) {
                    if let Read::Done(_, q2) = u16_at(b, q1) {
                        if let Read::Done(_, q3) = u16_at(b, q2) {
                            if let Read::Done(ni, q4) = u16_at(b, q3) {
                                if let Read::Done(_, q5) = bytes_at(b, q4, ni as int * 2) {
                                    if let Read::Done(nf, r1) = u16_at(b, q5) {
                                        lemma_list_never_aborts(b, r1, nf as nat, field_item());
                                        if let Read::Done(_, r2) = counted_list(b, q5, field_item()) {
                                            if let Read::Done(nm, r3) = u16_at(b, r2) {
                                                lemma_list_never_aborts(b, r3, nm as nat, method_item(head.const_pool));
                                                if let Read::Done(_, r4) = counted_list(b, r2, method_item(head.const_pool)) {
                                                    if let Read::Done(nc, r5) = u16_at(b, r4) {
                                                        lemma_list_never_aborts(
                                                            b,
                                                            r5,
                                                            nc as nat,
                                                            class_attribute_item(head.const_pool),
                                                        );
                                                    }
                                                }
                                            }
                                        }
                                    }
                                }
                            }
                        }
                    }
                }
            }
        }
    }
}

/// The message of the error for bytes that do not start with the magic number.
pub open spec fn bad_magic_message() -> Seq<char> {
    "Expected magic constant"@
}

/// Reading a count and then that many structures.
pub open spec fn counted_list<T>(b: Seq<u8>, p: int, item: spec_fn(Seq<u8>, int) -> Read<T>) -> Read<
    Seq<T>,
> {
    match u16_at(b, p) {
        Read::Done(n, p1) => read_list(b, p1, n as nat, item),
        _ => Read::Fail(LoadFailure::EndOfInput),
    }
}

/// Reading the part of a class file after its interfaces: fields, methods and attributes,
/// given the header read so far.
pub open spec fn class_body_at(b: Seq<u8>, p: int, head: ClassFileModel) -> Read<ClassFileModel> {
    match counted_list(b, p, field_item()) {
        Read::Done(fields, p1) => match counted_list(b, p1, method_item(head.const_pool)) {
            Read::Done(methods, p2) => match counted_list(b, p2, class_attribute_item(head.const_pool)) {
                Read::Done(attributes, p3) => Read::Done(
                    ClassFileModel { fields, methods, attributes, ..head },
                    p3,
                ),
                Read::Fail(e) => Read::Fail(e),
                Read::Abort => Read::Abort,
            },
            Read::Fail(e) => Read::Fail(e),
            Read::Abort => Read::Abort,
        },
        Read::Fail(e) => Read::Fail(e),
        Read::Abort => Read::Abort,
    }
}

/// Reading the attributes of a class after its constant pool: its flags, its own and its super
/// class, its interfaces (skipped), and its body.
pub open spec fn class_info_at(b: Seq<u8>, p: int, head: ClassFileModel) -> Read<ClassFileModel> {
    match u16_at(b, p) {
        Read::Done(access_flags, p1) => match u16_at(b, p1) {
            Read::Done(this_class, p2) => match u16_at(b, p2) {
                Read::Done(super_class, p3) => match u16_at(b, p3) {
                    Read::Done(ni, p4) => match bytes_at(b, p4, ni as int * 2) {
                        Read::Done(_, p5) => class_body_at(
                            b,
                            p5,
                            ClassFileModel { access_flags, this_class, super_class, ..head },
                        ),
                        _ => Read::Fail(LoadFailure::EndOfInput),
                    },
                    _ => Read::Fail(LoadFailure::EndOfInput),
                },
                _ => Read::Fail(LoadFailure::EndOfInput),
            },
            _ => Read::Fail(LoadFailure::EndOfInput),
        },
        _ => Read::Fail(LoadFailure::EndOfInput),
    }
}

/// Reading the versions and the constant pool that follow the magic number; the class read so
/// far has no flags, classes, fields, methods or attributes yet.
pub open spec fn header_at(b: Seq<u8>, p: int, magic: u32) -> Read<ClassFileModel> {
    match u16_at(b, p) {
        Read::Done(minor_version, p1) => match u16_at(b, p1) {
            Read::Done(major_version, p2) => match u16_at(b, p2) {
                Read::Done(count, p3) => match consts_from(b, p3, 1, count as int, Map::empty()) {
                    Read::Done(const_pool, p4) => Read::Done(
                        ClassFileModel {
                            magic,
                            minor_version,
                            major_version,
                            const_pool,
                            access_flags: 0,
                            this_class: 0,
                            super_class: 0,
                            fields: Seq::empty(),
                            methods: Seq::empty(),
                            attributes: Seq::empty(),
                        },
                        p4,
                    ),
                    Read::Fail(e) => Read::Fail(e),
                    Read::Abort => Read::Abort,
                },
                _ => Read::Fail(LoadFailure::EndOfInput),
            },
            _ => Read::Fail(LoadFailure::EndOfInput),
        },
        _ => Read::Fail(LoadFailure::EndOfInput),
    }
}

/// Reading a whole class file from the start of `b`.
pub open spec fn class_file_at(b: Seq<u8>) -> Read<ClassFileModel> {
    match u32_at(b, 0) {
        Read::Done(magic, p1) => if magic != MAGIC {
            Read::Fail(LoadFailure::Message(bad_magic_message()))
        } else {
            match header_at(b, p1, magic) {
                Read::Done(head, p2) => class_info_at(b, p2, head),
                Read::Fail(e) => Read::Fail(e),
                Read::Abort => Read::Abort,
            }
        },
        _ => Read::Fail(LoadFailure::EndOfInput),
    }
}

pub open spec fn field_attribute_item() -> spec_fn(Seq<u8>, int) -> Read<()> {
    |b: Seq<u8>, p: int| field_attribute_at(b, p)
}

pub open spec fn field_item() -> spec_fn(Seq<u8>, int) -> Read<Field> {
    |b: Seq<u8>, p: int| field_at(b, p)
}

pub open spec fn line_number_item() -> spec_fn(Seq<u8>, int) -> Read<LineNumber> {
    |b: Seq<u8>, p: int| line_number_at(b, p)
}

pub open spec fn handler_item() -> spec_fn(Seq<u8>, int) -> Read<ExHandler> {
    |b: Seq<u8>, p: int| handler_at(b, p)
}

pub open spec fn code_attribute_item(pool: Map<u16, ConstModel>) -> spec_fn(Seq<u8>, int) -> Read<
    CodeAttributeModel,
> {
    |b: Seq<u8>, p: int| code_attribute_at(b, p, pool)
}

pub open spec fn method_attribute_item(pool: Map<u16, ConstModel>) -> spec_fn(Seq<u8>, int) -> Read<
    MethodAttributeModel,
> {
    |b: Seq<u8>, p: int| method_attribute_at(b, p, pool)
}

pub open spec fn method_item(pool: Map<u16, ConstModel>) -> spec_fn(Seq<u8>, int) -> Read<
    MethodModel,
> {
    |b: Seq<u8>, p: int| method_at(b, p, pool)
}

pub open spec fn class_attribute_item(pool: Map<u16, ConstModel>) -> spec_fn(Seq<u8>, int) -> Read<
    ClassAttributeModel,
> {
    |b: Seq<u8>, p: int| class_attribute_at(b, p, pool)
}

// ---------------------------------------------------------------------------------------------
// Errors.
// ---------------------------------------------------------------------------------------------

/// The error of reading past the end of the class file's bytes.
#[derive(Debug)]
pub struct UnexpectedEnd;

/// An error occurring during class file loading.
#[derive(Debug)]
pub enum LoadError {
    /// The bytes ended before the class file did.
    EndOfInput,
    /// The bytes are not a class file; the message says why.
    Simple(String),
}

impl View for LoadError {
    type V = LoadFailure;

    open spec fn view(&self) -> LoadFailure {
        match self {
            LoadError::EndOfInput => LoadFailure::EndOfInput,
            LoadError::Simple(m) => LoadFailure::Message(m@),
        }
    }
}

impl LoadError {
    /// The load error for a failed read.
    pub fn new(error: UnexpectedEnd) -> (e: Self)
        ensures
            e@ == LoadFailure::EndOfInput,
    {
        LoadError::EndOfInput
    }

    /// A load error with the given message.
    pub fn simple(error: &str) -> (e: Self)
        ensures
            e@ == LoadFailure::Message(error@),
    {
        LoadError::Simple(error.to_owned())
    }

    /// A description of the error.
    pub fn message(&self) -> (m: String)
        ensures
            m@ == match self@ {
                LoadFailure::EndOfInput => "unexpected end of class file"@,
                LoadFailure::Message(text) => text,
            },
    {
        match self {
            LoadError::EndOfInput => String::from_str("unexpected end of class file"),
            LoadError::Simple(m) => m.clone(),
        }
    }
}

/// The character of the decimal digit `d`.
pub(crate) fn digit_char(d: u8) -> (c: char)
    requires
        d < 10,
    ensures
        c == digit(d as int),
{
    if d == 0 { '0' }
    else if d == 1 { '1' }
    else if d == 2 { '2' }
    else if d == 3 { '3' }
    else if d == 4 { '4' }
    else if d == 5 { '5' }
    else if d == 6 { '6' }
    else if d == 7 { '7' }
    else if d == 8 { '8' }
    else { '9' }
}

/// The error for an unknown constant pool tag.
fn unknown_tag(tag: u8) -> (e: LoadError)
    ensures
        e@ == LoadFailure::Message(unknown_tag_message(tag)),
{
    let mut m = String::from_str("unknown tag ");
    if tag >= 100 {
        push_char(&mut m, digit_char(tag / 100));
    }
    if tag >= 10 {
        push_char(&mut m, digit_char((tag / 10) % 10));
    }
    push_char(&mut m, digit_char(tag % 10));
    proof {
        reveal_strlit("unknown tag ");
        assert(m@ =~= unknown_tag_message(tag));
    }
    LoadError::Simple(m)
}

// ---------------------------------------------------------------------------------------------
// The reader.
// ---------------------------------------------------------------------------------------------

/// The outcome `res` of a read agrees with the format's outcome `r`, the read having left the
/// cursor at `end`.
pub open spec fn yields<T: View>(res: Result<T, LoadError>, r: Read<T::V>, end: int) -> bool {
    match r {
        Read::Done(v, q) => res matches Ok(x) && x@ == v && end == q,
        Read::Fail(f) => res matches Err(e) && e@ == f,
        Read::Abort => false,
    }
}

/// A cursor over the bytes of a class file.
pub struct Parser<'a> {
    bytes: &'a [u8],
    position: usize,
}

impl<'a> Parser<'a> {
    /// The bytes being read.
    pub closed spec fn data(&self) -> Seq<u8> {
        self.bytes@
    }

    /// The position of the next byte to read.
    pub closed spec fn pos(&self) -> int {
        self.position as int
    }

    pub closed spec fn wf(&self) -> bool {
        self.position <= self.bytes.len()
    }

    /// A cursor at the start of `bytes`.
    pub fn new(bytes: &'a [u8]) -> (p: Self)
        ensures
            p.wf(),
            p.data() == bytes@,
            p.pos() == 0,
    {
        Parser { bytes, position: 0 }
    }

    pub fn remaining(&self) -> (n: usize)
        requires
            self.wf(),
        ensures
            n == self.data().len() - self.pos(),
    {
        self.bytes.len() - self.position
    }

    pub fn read_u8(&mut self) -> (res: Result<u8, LoadError>)
        requires
            old(self).wf(),
        ensures
            final(self).wf(),
            final(self).data() == old(self).data(),
            yields(res, u8_at(old(self).data(), old(self).pos()), final(self).pos()),
    {
        if self.remaining() < 1 {
            return Err(LoadError::new(UnexpectedEnd));
        }
        let v = self.bytes[self.position];
        self.position += 1;
        Ok(v)
    }

    pub fn read_u16(&mut self) -> (res: Result<u16, LoadError>)
        requires
            old(self).wf(),
        ensures
            final(self).wf(),
            final(self).data() == old(self).data(),
            yields(res, u16_at(old(self).data(), old(self).pos()), final(self).pos()),
    {
        if self.remaining() < 2 {
            return Err(LoadError::new(UnexpectedEnd));
        }
        let v = read_be16(self.bytes, self.position);
        self.position += 2;
        Ok(v)
    }

    pub fn read_u32(&mut self) -> (res: Result<u32, LoadError>)
        requires
            old(self).wf(),
        ensures
            final(self).wf(),
            final(self).data() == old(self).data(),
            yields(res, u32_at(old(self).data(), old(self).pos()), final(self).pos()),
    {
        if self.remaining() < 4 {
            return Err(LoadError::new(UnexpectedEnd));
        }
        let v = read_be32(self.bytes, self.position);
        self.position += 4;
        Ok(v)
    }

    pub fn read_i32(&mut self) -> (res: Result<i32, LoadError>)
        requires
            old(self).wf(),
        ensures
            final(self).wf(),
            final(self).data() == old(self).data(),
            yields(res, i32_at(old(self).data(), old(self).pos()), final(self).pos()),
    {
        let v = self.read_u32()?;
        Ok(v as i32)
    }

    pub fn read_length(&mut self, length: usize) -> (res: Result<Vec<u8>, LoadError>)
        requires
            old(self).wf(),
        ensures
            final(self).wf(),
            final(self).data() == old(self).data(),
            yields(res, bytes_at(old(self).data(), old(self).pos(), length as int), final(self).pos()),
    {
        if self.remaining() < length {
            return Err(LoadError::new(UnexpectedEnd));
        }
        let v = copy_bytes(self.bytes, self.position, length);
        self.position += length;
        Ok(v)
    }
}

impl<'a> Parser<'a> {
    fn read_const(&mut self) -> (res: Result<Const, LoadError>)
        requires
            old(self).wf(),
        ensures
            final(self).wf(),
            final(self).data() == old(self).data(),
            yields(res, const_at(old(self).data(), old(self).pos()), final(self).pos()),
    {
        let tag = self.read_u8()?;
        if tag == 1 {
            let length = self.read_u16()?;
            let bytes = self.read_length(length as usize)?;
            Ok(Const::Utf8(Utf8 { bytes }))
        } else if tag == 3 {
            Ok(Const::Integer(Integer { int: self.read_i32()? }))
        } else if tag == 7 {
            Ok(Const::Class(Class { name: self.read_u16()? }))
        } else if tag == 8 {
            Ok(Const::String(const_pool::String { string: self.read_u16()? }))
        } else if tag == 9 {
            let class = self.read_u16()?;
            let name_and_type = self.read_u16()?;
            Ok(Const::FieldRef(FieldRef { class, name_and_type }))
        } else if tag == 10 {
            let class = self.read_u16()?;
            let name_and_type = self.read_u16()?;
            Ok(Const::MethodRef(MethodRef { class, name_and_type }))
        } else if tag == 12 {
            let name = self.read_u16()?;
            let descriptor = self.read_u16()?;
            Ok(Const::NameAndType(NameAndType { name, descriptor }))
        } else {
            Err(unknown_tag(tag))
        }
    }

    fn skip_field_attribute(&mut self) -> (res: Result<(), LoadError>)
        requires
            old(self).wf(),
        ensures
            final(self).wf(),
            final(self).data() == old(self).data(),
            yields(res, field_attribute_at(old(self).data(), old(self).pos()), final(self).pos()),
    {
        self.read_u16()?;
        let length = self.read_u32()? as usize;
        self.read_length(length)?;
        Ok(())
    }

    fn read_field(&mut self, _file: &ClassFile) -> (res: Result<Field, LoadError>)
        requires
            old(self).wf(),
        ensures
            final(self).wf(),
            final(self).data() == old(self).data(),
            yields(res, field_at(old(self).data(), old(self).pos()), final(self).pos()),
    {
        let ghost b = self.data();
        let ghost p0 = self.pos();
        let mut field = Field { access_flags: 0, name: 0, descriptor: 0 };

        field.access_flags = self.read_u16()?;
        field.name = self.read_u16()?;
        field.descriptor = self.read_u16()?;

        // Ignore attributes for now.
        let attribute_count = self.read_u16()?;
        let ghost start = self.pos();
        let ghost whole = read_list(b, start, attribute_count as nat, field_attribute_item());
        let ghost mut done: Seq<()> = Seq::empty();
        proof {
            lemma_list_start(whole);
        }
        let mut i: u16 = 0;
        while i < attribute_count
            invariant
                self.wf(),
                self.data() == b,
                b == old(self).data(),
                p0 == old(self).pos(),
                field_at(b, p0) == match whole {
                    Read::Done(_, q) => Read::Done(field, q),
                    _ => Read::Fail(LoadFailure::EndOfInput),
                },
                i <= attribute_count,
                done.len() == i,
                whole == continue_list(
                    done,
                    read_list(b, self.pos(), (attribute_count - i) as nat, field_attribute_item()),
                ),
            decreases attribute_count - i,
        {
            let ghost p = self.pos();
            let r = self.skip_field_attribute();
            proof {
                if r is Ok {
                    lemma_list_step(b, p, (attribute_count - i) as nat, field_attribute_item(), done);
                    done = done.push(());
                } else {
                    lemma_list_stop(b, p, (attribute_count - i) as nat, field_attribute_item(), done);
                }
            }
            r?;
            i += 1;
        }
        proof {
            lemma_list_end(b, self.pos(), field_attribute_item(), done);
        }
        Ok(field)
    }

    fn read_line_number(&mut self) -> (res: Result<LineNumber, LoadError>)
        requires
            old(self).wf(),
        ensures
            final(self).wf(),
            final(self).data() == old(self).data(),
            yields(res, line_number_at(old(self).data(), old(self).pos()), final(self).pos()),
    {
        let start_pc = self.read_u16()?;
        let line_number = self.read_u16()?;
        Ok(LineNumber { start_pc, line_number })
    }

    fn read_handler(&mut self) -> (res: Result<ExHandler, LoadError>)
        requires
            old(self).wf(),
        ensures
            final(self).wf(),
            final(self).data() == old(self).data(),
            yields(res, handler_at(old(self).data(), old(self).pos()), final(self).pos()),
    {
        let start_pc = self.read_u16()?;
        let end_pc = self.read_u16()?;
        let handler_pc = self.read_u16()?;
        let catch_type = self.read_u16()?;
        Ok(ExHandler { start_pc, end_pc, handler_pc, catch_type })
    }

    /// Reads an attribute's length and its bytes, keeping them as an unknown attribute.
    fn read_unknown(&mut self, name_idx: u16) -> (res: Result<UnknownAttribute, LoadError>)
        requires
            old(self).wf(),
        ensures
            final(self).wf(),
            final(self).data() == old(self).data(),
            match unknown_body_at(old(self).data(), old(self).pos()) {
                Read::Done(bytes, q) => res matches Ok(u) && u.name_idx == name_idx && u.bytes@ == bytes
                    && final(self).pos() == q,
                _ => res matches Err(e) && e@ == LoadFailure::EndOfInput,
            },
    {
        let length = self.read_u32()?;
        let bytes = self.read_length(length as usize)?;
        Ok(UnknownAttribute { name_idx, bytes })
    }

    fn read_code_attribute(&mut self, file: &ClassFile) -> (res: Result<CodeAttribute, LoadError>)
        requires
            old(self).wf(),
            !(code_attribute_at(old(self).data(), old(self).pos(), file@.const_pool) is Abort),
        ensures
            final(self).wf(),
            final(self).data() == old(self).data(),
            yields(
                res,
                code_attribute_at(old(self).data(), old(self).pos(), file@.const_pool),
                final(self).pos(),
            ),
    {
        let ghost b = self.data();
        let ghost p0 = self.pos();
        let ghost pool = file@.const_pool;
        let name_idx = self.read_u16()?;
        let name = match attribute_name(file, name_idx) {
            Some(n) => n,
            None => return Err(LoadError::simple("invalid attribute name")),
        };
        let expected = line_number_table_bytes();
        if bytes_equal(name.as_slice(), expected.as_slice()) {
            let _ = self.read_u32()?;
            let line_number_table_len = self.read_u16()?;
            let ghost start = self.pos();
            let ghost whole = read_list(b, start, line_number_table_len as nat, line_number_item());
            proof {
                lemma_list_start(whole);
            }
            let mut line_number_table: Vec<LineNumber> = Vec::new();
            let mut i: u16 = 0;
            while i < line_number_table_len
                invariant
                    self.wf(),
                    self.data() == b,
                    b == old(self).data(),
                    p0 == old(self).pos(),
                    pool == file@.const_pool,
                    code_attribute_at(b, p0, pool) == match whole {
                        Read::Done(t, q) => Read::Done(CodeAttributeModel::LineNumberTable(t), q),
                        _ => Read::Fail(LoadFailure::EndOfInput),
                    },
                    i <= line_number_table_len,
                    line_number_table@.len() == i,
                    whole == continue_list(
                        line_number_table@,
                        read_list(b, self.pos(), (line_number_table_len - i) as nat, line_number_item()),
                    ),
                decreases line_number_table_len - i,
            {
                let ghost p = self.pos();
                let r = self.read_line_number();
                proof {
                    if r is Ok {
                        lemma_list_step(b, p, (line_number_table_len - i) as nat, line_number_item(), line_number_table@);
                    } else {
                        lemma_list_stop(b, p, (line_number_table_len - i) as nat, line_number_item(), line_number_table@);
                    }
                }
                let entry = r?;
                line_number_table.push(entry);
                i += 1;
            }
            proof {
                lemma_list_end(b, self.pos(), line_number_item(), line_number_table@);
            }
            Ok(CodeAttribute::LineNumberTable(LineNumberTable { table: line_number_table }))
        } else {
            let unknown = self.read_unknown(name_idx)?;
            Ok(CodeAttribute::Unknown(unknown))
        }
    }
}

impl<'a> Parser<'a> {
    fn read_code(&mut self, file: &ClassFile) -> (res: Result<Code, LoadError>)
        requires
            old(self).wf(),
            !(code_at(old(self).data(), old(self).pos(), file@.const_pool) is Abort),
        ensures
            final(self).wf(),
            final(self).data() == old(self).data(),
            yields(res, code_at(old(self).data(), old(self).pos(), file@.const_pool), final(self).pos()),
    {
        let ghost b = self.data();
        let ghost p0 = self.pos();
        let ghost pool = file@.const_pool;

        let max_stack = self.read_u16()?;
        let max_locals = self.read_u16()?;

        let code_length = self.read_u32()?;
        let code = self.read_length(code_length as usize)?;

        let ex_table_len = self.read_u16()?;
        let ghost start = self.pos();
        let ghost handlers = read_list(b, start, ex_table_len as nat, handler_item());
        proof {
            lemma_list_start(handlers);
        }
        let mut ex_table: Vec<ExHandler> = Vec::new();
        let mut i: u16 = 0;
        while i < ex_table_len
            invariant
                self.wf(),
                self.data() == b,
                b == old(self).data(),
                p0 == old(self).pos(),
                pool == file@.const_pool,
                !(code_at(b, p0, pool) is Abort),
                code_at(b, p0, pool) == match handlers {
                    Read::Done(t, q) => match u16_at(b, q) {
                        Read::Done(na, q1) => match read_list(b, q1, na as nat, code_attribute_item(pool)) {
                            Read::Done(attributes, q2) => Read::Done(
                                CodeModel { max_stack, max_locals, code: code@, ex_table: t, attributes },
                                q2,
                            ),
                            Read::Fail(e) => Read::Fail(e),
                            Read::Abort => Read::Abort,
                        },
                        _ => Read::Fail(LoadFailure::EndOfInput),
                    },
                    _ => Read::Fail(LoadFailure::EndOfInput),
                },
                i <= ex_table_len,
                ex_table@.len() == i,
                handlers == continue_list(
                    ex_table@,
                    read_list(b, self.pos(), (ex_table_len - i) as nat, handler_item()),
                ),
            decreases ex_table_len - i,
        {
            let ghost p = self.pos();
            let r = self.read_handler();
            proof {
                if r is Ok {
                    lemma_list_step(b, p, (ex_table_len - i) as nat, handler_item(), ex_table@);
                } else {
                    lemma_list_stop(b, p, (ex_table_len - i) as nat, handler_item(), ex_table@);
                }
            }
            let handler = r?;
            ex_table.push(handler);
            i += 1;
        }
        proof {
            lemma_list_end(b, self.pos(), handler_item(), ex_table@);
        }

        let attributes_count = self.read_u16()?;
        let ghost start2 = self.pos();
        let ghost whole = read_list(b, start2, attributes_count as nat, code_attribute_item(pool));
        proof {
            lemma_list_start(whole);
        }
        let mut attributes: Vec<CodeAttribute> = Vec::new();
        let mut k: u16 = 0;
        while k < attributes_count
            invariant
                self.wf(),
                self.data() == b,
                b == old(self).data(),
                p0 == old(self).pos(),
                pool == file@.const_pool,
                !(whole is Abort),
                code_at(b, p0, pool) == match whole {
                    Read::Done(attrs, q2) => Read::Done(
                        CodeModel { max_stack, max_locals, code: code@, ex_table: ex_table@, attributes: attrs },
                        q2,
                    ),
                    Read::Fail(e) => Read::Fail(e),
                    Read::Abort => Read::Abort,
                },
                k <= attributes_count,
                attributes@.len() == k,
                whole == continue_list(
                    attributes@.map_values(|a: CodeAttribute| a@),
                    read_list(b, self.pos(), (attributes_count - k) as nat, code_attribute_item(pool)),
                ),
            decreases attributes_count - k,
        {
            let ghost p = self.pos();
            let ghost done = attributes@.map_values(|a: CodeAttribute| a@);
            proof {
                if code_attribute_at(b, p, pool) is Abort {
                    lemma_list_stop(b, p, (attributes_count - k) as nat, code_attribute_item(pool), done);
                }
            }
            let r = self.read_code_attribute(file);
            proof {
                if r is Ok {
                    lemma_list_step(b, p, (attributes_count - k) as nat, code_attribute_item(pool), done);
                } else {
                    lemma_list_stop(b, p, (attributes_count - k) as nat, code_attribute_item(pool), done);
                }
            }
            let attribute = r?;
            attributes.push(attribute);
            proof {
                assert(attributes@.map_values(|a: CodeAttribute| a@) =~= done.push(attribute@));
            }
            k += 1;
        }
        proof {
            lemma_list_end(b, self.pos(), code_attribute_item(pool), attributes@.map_values(|a: CodeAttribute| a@));
        }

        Ok(Code { max_stack, max_locals, code, ex_table, attributes })
    }
}

impl<'a> Parser<'a> {
    fn read_method_attribute(&mut self, file: &ClassFile) -> (res: Result<MethodAttribute, LoadError>)
        requires
            old(self).wf(),
            !(method_attribute_at(old(self).data(), old(self).pos(), file@.const_pool) is Abort),
        ensures
            final(self).wf(),
            final(self).data() == old(self).data(),
            yields(
                res,
                method_attribute_at(old(self).data(), old(self).pos(), file@.const_pool),
                final(self).pos(),
            ),
    {
        let name_idx = self.read_u16()?;
        let name = match attribute_name(file, name_idx) {
            Some(n) => n,
            None => return Err(LoadError::simple("invalid attribute name")),
        };
        let expected = code_bytes();
        if bytes_equal(name.as_slice(), expected.as_slice()) {
            let _ = self.read_u32()?;
            let code = self.read_code(file)?;
            Ok(MethodAttribute::Code(code))
        } else {
            let unknown = self.read_unknown(name_idx)?;
            Ok(MethodAttribute::Unknown(unknown))
        }
    }

    fn read_method(&mut self, file: &ClassFile) -> (res: Result<Method, LoadError>)
        requires
            old(self).wf(),
            !(method_at(old(self).data(), old(self).pos(), file@.const_pool) is Abort),
        ensures
            final(self).wf(),
            final(self).data() == old(self).data(),
            yields(res, method_at(old(self).data(), old(self).pos(), file@.const_pool), final(self).pos()),
    {
        let ghost b = self.data();
        let ghost p0 = self.pos();
        let ghost pool = file@.const_pool;
        let mut method = Method { access_flags: 0, name: 0, descriptor: 0, attributes: Vec::new() };

        method.access_flags = self.read_u16()?;
        method.name = self.read_u16()?;
        method.descriptor = self.read_u16()?;

        let attribute_count = self.read_u16()?;
        let ghost start = self.pos();
        let ghost whole = read_list(b, start, attribute_count as nat, method_attribute_item(pool));
        proof {
            lemma_list_start(whole);
            assert(method.attributes@.map_values(|a: MethodAttribute| a@) =~= Seq::empty());
        }
        let mut i: u16 = 0;
        while i < attribute_count
            invariant
                self.wf(),
                self.data() == b,
                b == old(self).data(),
                p0 == old(self).pos(),
                pool == file@.const_pool,
                !(whole is Abort),
                method_at(b, p0, pool) == match whole {
                    Read::Done(attrs, q) => Read::Done(
                        MethodModel {
                            access_flags: method.access_flags,
                            name: method.name,
                            descriptor: method.descriptor,
                            attributes: attrs,
                        },
                        q,
                    ),
                    Read::Fail(e) => Read::Fail(e),
                    Read::Abort => Read::Abort,
                },
                i <= attribute_count,
                method.attributes@.len() == i,
                whole == continue_list(
                    method@.attributes,
                    read_list(b, self.pos(), (attribute_count - i) as nat, method_attribute_item(pool)),
                ),
            decreases attribute_count - i,
        {
            let ghost p = self.pos();
            let ghost done = method@.attributes;
            proof {
                if method_attribute_at(b, p, pool) is Abort {
                    lemma_list_stop(b, p, (attribute_count - i) as nat, method_attribute_item(pool), done);
                }
            }
            let r = self.read_method_attribute(file);
            proof {
                if r is Ok {
                    lemma_list_step(b, p, (attribute_count - i) as nat, method_attribute_item(pool), done);
                } else {
                    lemma_list_stop(b, p, (attribute_count - i) as nat, method_attribute_item(pool), done);
                }
            }
            let attribute = r?;
            method.attributes.push(attribute);
            proof {
                assert(method@.attributes =~= done.push(attribute@));
            }
            i += 1;
        }
        proof {
            lemma_list_end(b, self.pos(), method_attribute_item(pool), method@.attributes);
        }
        Ok(method)
    }

    fn read_class_attribute(&mut self, file: &ClassFile) -> (res: Result<ClassAttribute, LoadError>)
        requires
            old(self).wf(),
            !(class_attribute_at(old(self).data(), old(self).pos(), file@.const_pool) is Abort),
        ensures
            final(self).wf(),
            final(self).data() == old(self).data(),
            yields(
                res,
                class_attribute_at(old(self).data(), old(self).pos(), file@.const_pool),
                final(self).pos(),
            ),
    {
        let name_idx = self.read_u16()?;
        let name = match attribute_name(file, name_idx) {
            Some(n) => n,
            None => return Err(LoadError::simple("invalid attribute name")),
        };
        let expected = source_file_bytes();
        if bytes_equal(name.as_slice(), expected.as_slice()) {
            let length = self.read_u32()?;
            if length != 2 {
                return Err(LoadError::simple("invalid SourceFile attribute"));
            }
            let source_file = self.read_u16()?;
            Ok(ClassAttribute::SourceFile(SourceFile { source_file }))
        } else {
            let unknown = self.read_unknown(name_idx)?;
            Ok(ClassAttribute::Unknown(unknown))
        }
    }
}

/// Inserting into a pool and then taking its model is taking the model and then inserting.
proof fn lemma_pool_insert(pool: Map<u16, Const>, idx: u16, c: Const)
    ensures
        pool_model(pool.insert(idx, c)) == pool_model(pool).insert(idx, c@),
{
    assert(pool_model(pool.insert(idx, c)) =~= pool_model(pool).insert(idx, c@));
}

/// The outcome `res` of reading a list agrees with the format's outcome `r`, the read having
/// left the cursor at `end`.
pub open spec fn yields_list<T: View>(res: Result<Vec<T>, LoadError>, r: Read<Seq<T::V>>, end: int) -> bool {
    match r {
        Read::Done(xs, q) => res matches Ok(v) && v@.map_values(|x: T| x@) == xs && end == q,
        Read::Fail(f) => res matches Err(e) && e@ == f,
        Read::Abort => false,
    }
}

impl<'a> Parser<'a> {
    fn read_const_pool(&mut self, const_pool_count: u16) -> (res: Result<HashMap<u16, Const>, LoadError>)
        requires
            old(self).wf(),
        ensures
            final(self).wf(),
            final(self).data() == old(self).data(),
            match consts_from(old(self).data(), old(self).pos(), 1, const_pool_count as int, Map::empty()) {
                Read::Done(pool, q) => res matches Ok(m) && pool_model(m@) == pool && final(self).pos() == q,
                Read::Fail(f) => res matches Err(e) && e@ == f,
                Read::Abort => false,
            },
    {
        let ghost b = self.data();
        let ghost p0 = self.pos();
        let mut const_pool: HashMap<u16, Const> = HashMap::new();
        proof {
            assert(pool_model(const_pool@) =~= Map::empty());
        }
        let mut idx: u16 = 1;
        while idx < const_pool_count
            invariant
                self.wf(),
                self.data() == b,
                b == old(self).data(),
                p0 == old(self).pos(),
                1 <= idx,
                idx <= const_pool_count || const_pool_count == 0,
                consts_from(b, p0, 1, const_pool_count as int, Map::empty()) == consts_from(
                    b,
                    self.pos(),
                    idx as int,
                    const_pool_count as int,
                    pool_model(const_pool@),
                ),
            decreases const_pool_count - idx,
        {
            let const_item = self.read_const()?;
            let size = const_item.width();
            proof {
                lemma_pool_insert(const_pool@, idx, const_item);
            }
            const_pool.insert(idx, const_item);
            idx += size;
        }
        Ok(const_pool)
    }

    fn read_fields(&mut self, file: &ClassFile) -> (res: Result<Vec<Field>, LoadError>)
        requires
            old(self).wf(),
        ensures
            final(self).wf(),
            final(self).data() == old(self).data(),
            yields_list(res, counted_list(old(self).data(), old(self).pos(), field_item()), final(self).pos()),
    {
        let ghost b = self.data();
        let fields_count = self.read_u16()?;
        let ghost whole = read_list(b, self.pos(), fields_count as nat, field_item());
        proof {
            lemma_list_start(whole);
        }
        let mut fields: Vec<Field> = Vec::new();
        let mut i: u16 = 0;
        while i < fields_count
            invariant
                self.wf(),
                self.data() == b,
                b == old(self).data(),
                whole == counted_list(b, old(self).pos(), field_item()),
                i <= fields_count,
                fields@.len() == i,
                whole == continue_list(
                    fields@.map_values(|x: Field| x@),
                    read_list(b, self.pos(), (fields_count - i) as nat, field_item()),
                ),
            decreases fields_count - i,
        {
            let ghost p = self.pos();
            let ghost done = fields@.map_values(|x: Field| x@);
            let r = self.read_field(file);
            proof {
                if r is Ok {
                    lemma_list_step(b, p, (fields_count - i) as nat, field_item(), done);
                } else {
                    lemma_list_stop(b, p, (fields_count - i) as nat, field_item(), done);
                }
            }
            let field = r?;
            fields.push(field);
            proof {
                assert(fields@.map_values(|x: Field| x@) =~= done.push(field@));
            }
            i += 1;
        }
        proof {
            lemma_list_end(b, self.pos(), field_item(), fields@.map_values(|x: Field| x@));
        }
        Ok(fields)
    }

    fn read_methods(&mut self, file: &ClassFile) -> (res: Result<Vec<Method>, LoadError>)
        requires
            old(self).wf(),
            !(counted_list(old(self).data(), old(self).pos(), method_item(file@.const_pool)) is Abort),
        ensures
            final(self).wf(),
            final(self).data() == old(self).data(),
            yields_list(
                res,
                counted_list(old(self).data(), old(self).pos(), method_item(file@.const_pool)),
                final(self).pos(),
            ),
    {
        let ghost b = self.data();
        let ghost pool = file@.const_pool;
        let methods_count = self.read_u16()?;
        let ghost whole = read_list(b, self.pos(), methods_count as nat, method_item(pool));
        proof {
            lemma_list_start(whole);
        }
        let mut methods: Vec<Method> = Vec::new();
        let mut i: u16 = 0;
        while i < methods_count
            invariant
                self.wf(),
                self.data() == b,
                b == old(self).data(),
                pool == file@.const_pool,
                whole == counted_list(b, old(self).pos(), method_item(pool)),
                !(whole is Abort),
                i <= methods_count,
                methods@.len() == i,
                whole == continue_list(
                    methods@.map_values(|x: Method| x@),
                    read_list(b, self.pos(), (methods_count - i) as nat, method_item(pool)),
                ),
            decreases methods_count - i,
        {
            let ghost p = self.pos();
            let ghost done = methods@.map_values(|x: Method| x@);
            proof {
                if method_at(b, p, pool) is Abort {
                    lemma_list_stop(b, p, (methods_count - i) as nat, method_item(pool), done);
                }
            }
            let r = self.read_method(file);
            proof {
                if r is Ok {
                    lemma_list_step(b, p, (methods_count - i) as nat, method_item(pool), done);
                } else {
                    lemma_list_stop(b, p, (methods_count - i) as nat, method_item(pool), done);
                }
            }
            let method = r?;
            methods.push(method);
            proof {
                assert(methods@.map_values(|x: Method| x@) =~= done.push(method@));
            }
            i += 1;
        }
        proof {
            lemma_list_end(b, self.pos(), method_item(pool), methods@.map_values(|x: Method| x@));
        }
        Ok(methods)
    }

    fn read_class_attributes(&mut self, file: &ClassFile) -> (res: Result<Vec<ClassAttribute>, LoadError>)
        requires
            old(self).wf(),
            !(counted_list(old(self).data(), old(self).pos(), class_attribute_item(file@.const_pool)) is Abort),
        ensures
            final(self).wf(),
            final(self).data() == old(self).data(),
            yields_list(
                res,
                counted_list(old(self).data(), old(self).pos(), class_attribute_item(file@.const_pool)),
                final(self).pos(),
            ),
    {
        let ghost b = self.data();
        let ghost pool = file@.const_pool;
        let attributes_count = self.read_u16()?;
        let ghost whole = read_list(b, self.pos(), attributes_count as nat, class_attribute_item(pool));
        proof {
            lemma_list_start(whole);
        }
        let mut attributes: Vec<ClassAttribute> = Vec::new();
        let mut i: u16 = 0;
        while i < attributes_count
            invariant
                self.wf(),
                self.data() == b,
                b == old(self).data(),
                pool == file@.const_pool,
                whole == counted_list(b, old(self).pos(), class_attribute_item(pool)),
                !(whole is Abort),
                i <= attributes_count,
                attributes@.len() == i,
                whole == continue_list(
                    attributes@.map_values(|x: ClassAttribute| x@),
                    read_list(b, self.pos(), (attributes_count - i) as nat, class_attribute_item(pool)),
                ),
            decreases attributes_count - i,
        {
            let ghost p = self.pos();
            let ghost done = attributes@.map_values(|x: ClassAttribute| x@);
            proof {
                if class_attribute_at(b, p, pool) is Abort {
                    lemma_list_stop(b, p, (attributes_count - i) as nat, class_attribute_item(pool), done);
                }
            }
            let r = self.read_class_attribute(file);
            proof {
                if r is Ok {
                    lemma_list_step(b, p, (attributes_count - i) as nat, class_attribute_item(pool), done);
                } else {
                    lemma_list_stop(b, p, (attributes_count - i) as nat, class_attribute_item(pool), done);
                }
            }
            let attribute = r?;
            attributes.push(attribute);
            proof {
                assert(attributes@.map_values(|x: ClassAttribute| x@) =~= done.push(attribute@));
            }
            i += 1;
        }
        proof {
            lemma_list_end(b, self.pos(), class_attribute_item(pool), attributes@.map_values(|x: ClassAttribute| x@));
        }
        Ok(attributes)
    }

    fn read_header(&mut self, magic: u32) -> (res: Result<ClassFile, LoadError>)
        requires
            old(self).wf(),
        ensures
            final(self).wf(),
            final(self).data() == old(self).data(),
            yields(res, header_at(old(self).data(), old(self).pos(), magic), final(self).pos()),
    {
        let mut class_file = ClassFile {
            magic,
            minor_version: 0,
            major_version: 0,
            const_pool: HashMap::new(),
            access_flags: 0,
            this_class: 0,
            super_class: 0,
            fields: Vec::new(),
            methods: Vec::new(),
            attributes: Vec::new(),
        };

        class_file.minor_version = self.read_u16()?;
        class_file.major_version = self.read_u16()?;

        let const_pool_count = self.read_u16()?;
        class_file.const_pool = self.read_const_pool(const_pool_count)?;
        proof {
            assert(class_file@.fields =~= Seq::empty());
            assert(class_file@.methods =~= Seq::empty());
            assert(class_file@.attributes =~= Seq::empty());
        }
        Ok(class_file)
    }

    fn read_class_info(&mut self, class_file: ClassFile) -> (res: Result<ClassFile, LoadError>)
        requires
            old(self).wf(),
            !(class_info_at(old(self).data(), old(self).pos(), class_file@) is Abort),
        ensures
            final(self).wf(),
            final(self).data() == old(self).data(),
            yields(res, class_info_at(old(self).data(), old(self).pos(), class_file@), final(self).pos()),
    {
        let mut class_file = class_file;
        class_file.access_flags = self.read_u16()?;
        class_file.this_class = self.read_u16()?;
        class_file.super_class = self.read_u16()?;

        let interfaces_count = self.read_u16()?;
        let skip_bytes = interfaces_count as usize * 2;
        self.read_length(skip_bytes)?;

        self.read_class_body(class_file)
    }

    fn read_class_body(&mut self, class_file: ClassFile) -> (res: Result<ClassFile, LoadError>)
        requires
            old(self).wf(),
            !(class_body_at(old(self).data(), old(self).pos(), class_file@) is Abort),
        ensures
            final(self).wf(),
            final(self).data() == old(self).data(),
            yields(res, class_body_at(old(self).data(), old(self).pos(), class_file@), final(self).pos()),
    {
        let ghost head = class_file@;
        let mut class_file = class_file;
        class_file.fields = self.read_fields(&class_file)?;
        class_file.methods = self.read_methods(&class_file)?;
        class_file.attributes = self.read_class_attributes(&class_file)?;
        proof {
            assert(class_file@.fields =~= class_file.fields@.map_values(|x: Field| x@));
        }
        Ok(class_file)
    }

    /// Read the full class file from the underlying source.
    pub fn read_class_file(&mut self) -> (res: Result<ClassFile, LoadError>)
        requires
            old(self).wf(),
            old(self).pos() == 0,
        ensures
            final(self).wf(),
            final(self).data() == old(self).data(),
            yields(res, class_file_at(old(self).data()), final(self).pos()),
    {
        proof {
            lemma_class_file_never_aborts(self.data());
        }
        let magic = self.read_u32()?;
        if magic != MAGIC {
            return Err(LoadError::simple("Expected magic constant"));
        }
        let class_file = self.read_header(magic)?;
        self.read_class_info(class_file)
    }
}

/// Parse a class file structure from its bytes, which must hold one.
pub fn parse(bytes: &[u8]) -> (class_file: ClassFile)
    requires
        class_file_at(bytes@) is Done,
    ensures
        class_file@ == class_file_at(bytes@)->Done_0,
{
    let mut parser = Parser::new(bytes);
    match parser.read_class_file() {
        Ok(class_file) => class_file,
        Err(_) => unreached(),
    }
}

/// The bytes of the attribute name at `idx` of the pool of `file`, when it is a `Utf8` entry
/// holding valid UTF-8.
fn attribute_name(file: &ClassFile, idx: u16) -> (res: Option<&Vec<u8>>)
    ensures
        match pool_name(file@.const_pool, idx) {
            Some(n) => res matches Some(v) && v@ == n,
            None => res is None,
        },
{
    match file.const_pool.get(&idx) {
        Some(Const::Utf8(u)) => {
            if crate::text::string_from_utf8(u.bytes.clone()).is_some() {
                Some(&u.bytes)
            } else {
                None
            }
        },
        _ => None,
    }
}

/// `Code`, in UTF-8.
fn code_bytes() -> (v: Vec<u8>)
    ensures
        v@ == code_name(),
{
    let v: Vec<u8> = vec![67u8, 111, 100, 101];
    proof {
        assert(v@ =~= code_name());
    }
    v
}

/// `SourceFile`, in UTF-8.
fn source_file_bytes() -> (v: Vec<u8>)
    ensures
        v@ == source_file_name(),
{
    let v: Vec<u8> = vec![83u8, 111, 117, 114, 99, 101, 70, 105, 108, 101];
    proof {
        assert(v@ =~= source_file_name());
    }
    v
}

/// `LineNumberTable`, in UTF-8.
fn line_number_table_bytes() -> (v: Vec<u8>)
    ensures
        v@ == line_number_table_name(),
{
    let v: Vec<u8> = vec![76u8, 105, 110, 101, 78, 117, 109, 98, 101, 114, 84, 97, 98, 108, 101];
    proof {
        assert(v@ =~= line_number_table_name());
    }
    v
}

/// The number stored big-endian in the two bytes of `b` at `p`.
pub open spec fn two_bytes(b: Seq<u8>, p: int) -> int {
    b[p] as int * 256 + b[p + 1] as int
}

/// An exception table entry is eight bytes: its start, its end, the handler's entry point and
/// the caught class's pool index, each in two bytes big-endian, in that order, as the class
/// file format lays them out. Fewer than eight bytes left is the end of the input.
pub proof fn law_handler_layout(b: Seq<u8>, p: int)
    ensures
        0 <= p && p + 8 <= b.len() ==> (handler_at(b, p) matches Read::Done(h, q) && q == p + 8
            && h.start_pc == two_bytes(b, p) && h.end_pc == two_bytes(b, p + 2)
            && h.handler_pc == two_bytes(b, p + 4) && h.catch_type == two_bytes(b, p + 6)),
        !(0 <= p && p + 8 <= b.len()) ==> handler_at(b, p) == Read::<ExHandler>::Fail(LoadFailure::EndOfInput),
{
}

/// A line number entry is four bytes: the start of the code it covers, then the line, each
/// in two bytes big-endian. Fewer than four bytes left is the end of the input.
pub proof fn law_line_number_layout(b: Seq<u8>, p: int)
    ensures
        0 <= p && p + 4 <= b.len() ==> (line_number_at(b, p) matches Read::Done(l, q) && q == p + 4
            && l.start_pc == two_bytes(b, p) && l.line_number == two_bytes(b, p + 2)),
        !(0 <= p && p + 4 <= b.len()) ==> line_number_at(b, p) == Read::<LineNumber>::Fail(LoadFailure::EndOfInput),
{
}

/// The number stored big-endian in the four bytes of `b` at `p`.
pub open spec fn four_bytes(b: Seq<u8>, p: int) -> int {
    two_bytes(b, p) * 0x1_0000 + two_bytes(b, p + 2)
}

/// A field read from `b` at `p` takes its access flags, its name's index and its
/// descriptor's index from the first three pairs of bytes, in that order.
pub proof fn law_field_layout(b: Seq<u8>, p: int)
    ensures
        field_at(b, p) matches Read::Done(f, _) ==> f.access_flags == two_bytes(b, p) && f.name == two_bytes(b, p + 2)
            && f.descriptor == two_bytes(b, p + 4),
{
}

/// A method read from `b` at `p` takes its access flags, its name's index and its
/// descriptor's index from the first three pairs of bytes, in that order.
pub proof fn law_method_layout(b: Seq<u8>, p: int, pool: Map<u16, ConstModel>)
    ensures
        method_at(b, p, pool) matches Read::Done(m, _) ==> m.access_flags == two_bytes(b, p) && m.name == two_bytes(
            b,
            p + 2,
        ) && m.descriptor == two_bytes(b, p + 4),
{
}

/// The body of a `Code` attribute read from `b` at `p` starts with the maximum stack depth,
/// then the number of locals, each in two bytes, then the code's length in four bytes and the
/// code itself.
pub proof fn law_code_layout(b: Seq<u8>, p: int, pool: Map<u16, ConstModel>)
    ensures
        code_at(b, p, pool) matches Read::Done(c, _) ==> c.max_stack == two_bytes(b, p) && c.max_locals == two_bytes(
            b,
            p + 2,
        ) && c.code == b.subrange(p + 8, p + 8 + four_bytes(b, p + 4)),
{
}

/// A class file starts with the magic number in four bytes, then its minor and its major
/// version, each in two bytes; after the constant pool come its access flags, its own class
/// and its super class, each in two bytes, in that order.
pub proof fn law_class_file_layout(b: Seq<u8>)
    ensures
        class_file_at(b) matches Read::Done(c, _) ==> c.magic == four_bytes(b, 0) && c.minor_version == two_bytes(b, 4)
            && c.major_version == two_bytes(b, 6),
{
}

/// The class information after the constant pool, read from `b` at `p`, holds the access
/// flags, the class itself and its super class in its first three pairs of bytes, in that
/// order.
pub proof fn law_class_info_layout(b: Seq<u8>, p: int, head: ClassFileModel)
    ensures
        class_info_at(b, p, head) matches Read::Done(c, _) ==> c.access_flags == two_bytes(b, p) && c.this_class
            == two_bytes(b, p + 2) && c.super_class == two_bytes(b, p + 4),
{
}

} // verus!
