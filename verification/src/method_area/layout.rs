//! Turning a class file into a loaded class: the layout of its fields in objects and in the
//! class's static data, its methods and its source file.
//!
//! The fields of each kind are placed in the order of decreasing width, which packs them
//! without gaps, each kind keeping the order of the class file among fields of one width.

use vstd::prelude::*;

use crate::class_file::{
    ACCESS_FLAG_NATIVE,
    ACCESS_FLAG_STATIC,
    ACCESS_FLAG_SYNC,
    ClassAttribute,
    ClassAttributeModel,
    ClassFile,
    ClassFileModel,
    MethodAttributeModel,
    first_code,
};
use crate::class_file::Field as FileField;
use crate::class_file::MethodModel as FileMethod;
use crate::java::field_type::{field_descriptor_type, type_width};
use crate::java::method_type::parse_method;
use crate::java::{FieldType, MethodType};
use crate::method_area::const_pool::{
    ConstPool,
    binary_name,
    class_name_at,
    class_name_index,
    has_text,
    names_class,
    pool_convertible,
    runtime_pool,
    text_at,
    utf8_text,
};
use crate::method_area::{Attribute, Class, ClassFlags, ClassModel, Field, FieldModel, Method, MethodInfo};

verus! {

/// The alignment of the width of an object's data and of a class's static data.
pub const ALIGN: usize = 4;

/// Whether access flags mark a member static.
pub open spec fn is_static_flags(flags: u16) -> bool {
    flags & ACCESS_FLAG_STATIC != 0
}

/// Whether a field of a class file can be loaded: its name and descriptor are string
/// constants, and the descriptor denotes a field type.
pub open spec fn field_loadable(pool: Map<u16, crate::class_file::const_pool::ConstModel>, f: FileField) -> bool {
    &&& has_text(pool, f.name)
    &&& has_text(pool, f.descriptor)
    &&& field_descriptor_type(utf8_text(pool, f.descriptor)) is Some
}

/// The loaded field for the field `f` of a class file, of the class at `class`, before it is
/// placed.
pub open spec fn field_of(pool: Map<u16, crate::class_file::const_pool::ConstModel>, f: FileField, class: usize) -> FieldModel {
    let t = field_descriptor_type(utf8_text(pool, f.descriptor))->Some_0;
    FieldModel {
        class,
        is_static: is_static_flags(f.access_flags),
        name: utf8_text(pool, f.name),
        descriptor: t,
        offset: 0,
        width: type_width(t),
    }
}

/// The loaded fields for the static fields of `fields`, or for the others, in their order.
pub open spec fn declared(
    pool: Map<u16, crate::class_file::const_pool::ConstModel>,
    fields: Seq<FileField>,
    statics: bool,
    class: usize,
) -> Seq<FieldModel>
    decreases fields.len(),
{
    if fields.len() == 0 {
        Seq::empty()
    } else {
        let rest = declared(pool, fields.drop_last(), statics, class);
        if is_static_flags(fields.last().access_flags) == statics {
            rest.push(field_of(pool, fields.last(), class))
        } else {
            rest
        }
    }
}

/// The fields of `fs` of width `w`, in their order.
pub open spec fn of_width(fs: Seq<FieldModel>, w: usize) -> Seq<FieldModel>
    decreases fs.len(),
{
    if fs.len() == 0 {
        Seq::empty()
    } else {
        let rest = of_width(fs.drop_last(), w);
        if fs.last().width == w {
            rest.push(fs.last())
        } else {
            rest
        }
    }
}

/// The fields `fs` sorted by decreasing width, keeping their order among fields of one width.
pub open spec fn width_order(fs: Seq<FieldModel>) -> Seq<FieldModel> {
    of_width(fs, 8) + of_width(fs, 4) + of_width(fs, 2) + of_width(fs, 1)
}

/// The sum of the widths of `fs`.
pub open spec fn total_width(fs: Seq<FieldModel>) -> int
    decreases fs.len(),
{
    if fs.len() == 0 {
        0
    } else {
        total_width(fs.drop_last()) + fs.last().width
    }
}

/// The fields `fs` placed one after the other from offset `start`.
pub open spec fn placed(fs: Seq<FieldModel>, start: int) -> Seq<FieldModel>
    decreases fs.len(),
{
    if fs.len() == 0 {
        Seq::empty()
    } else {
        placed(fs.drop_last(), start).push(
            FieldModel { offset: (start + total_width(fs.drop_last())) as usize, ..fs.last() },
        )
    }
}

/// The width of data whose fields end at `end`: `end` followed by padding up to the next
/// multiple of the alignment, a whole alignment where `end` is already a multiple.
pub open spec fn padded(end: int) -> int {
    end + (ALIGN - end % (ALIGN as int))
}

/// Every field of `fs` is one, two, four or eight bytes wide, as the fields of every type are.
pub open spec fn narrow(fs: Seq<FieldModel>) -> bool {
    forall|i: int|
        0 <= i < fs.len() ==> (#[trigger] fs[i]).width == 1 || fs[i].width == 2 || fs[i].width == 4
            || fs[i].width == 8
}

impl Field {
    /// A copy of the field.
    pub fn duplicate(&self) -> (res: Field)
        ensures
            res@ == self@,
    {
        Field {
            class: self.class,
            is_static: self.is_static,
            name: self.name.clone(),
            descriptor: self.descriptor.duplicate(),
            offset: self.offset,
            width: self.width,
        }
    }
}

/// The loaded field for the field `f` of the class file, of the class at `class`.
fn load_field(file: &ClassFile, f: &FileField, class: usize) -> (res: Field)
    requires
        field_loadable(file@.const_pool, *f),
    ensures
        res@ == field_of(file@.const_pool, *f, class),
{
    let name = text_at(file, f.name);
    let text = text_at(file, f.descriptor);
    let descriptor = match FieldType::from_descriptor(text.as_str()) {
        Ok(t) => t,
        Err(_) => unreached(),
    };
    let width = descriptor.width();
    Field { class, is_static: f.access_flags & ACCESS_FLAG_STATIC != 0, name, descriptor, offset: 0, width }
}

/// The loaded fields for the static fields of the class file, or for the others.
fn declared_fields(file: &ClassFile, statics: bool, class: usize) -> (res: Vec<Field>)
    requires
        forall|i: int|
            0 <= i < file@.fields.len() ==> field_loadable(file@.const_pool, #[trigger] file@.fields[i]),
    ensures
        res@.map_values(|f: Field| f@) == declared(file@.const_pool, file@.fields, statics, class),
        narrow(res@.map_values(|f: Field| f@)),
{
    let ghost pool = file@.const_pool;
    let ghost fields = file@.fields;
    let mut res: Vec<Field> = Vec::new();
    let mut i: usize = 0;
    while i < file.fields.len()
        invariant
            i <= file.fields.len(),
            pool == file@.const_pool,
            fields == file@.fields,
            forall|k: int| 0 <= k < fields.len() ==> field_loadable(pool, #[trigger] fields[k]),
            res@.map_values(|f: Field| f@) == declared(pool, fields.subrange(0, i as int), statics, class),
            narrow(res@.map_values(|f: Field| f@)),
        decreases file.fields.len() - i,
    {
        proof {
            assert(fields.subrange(0, i + 1).drop_last() =~= fields.subrange(0, i as int));
        }
        let f = &file.fields[i];
        if (f.access_flags & ACCESS_FLAG_STATIC != 0) == statics {
            let ghost before = res@.map_values(|f: Field| f@);
            let field = load_field(file, f, class);
            res.push(field);
            proof {
                assert(res@.map_values(|f: Field| f@) =~= before.push(field@));
            }
        }
        i += 1;
    }
    proof {
        assert(fields.subrange(0, i as int) =~= fields);
    }
    res
}

/// Append the fields of `fields` of width `w` to `out`, in their order.
fn push_of_width(out: &mut Vec<Field>, fields: &Vec<Field>, w: usize)
    requires
        narrow(old(out)@.map_values(|f: Field| f@)),
        narrow(fields@.map_values(|f: Field| f@)),
    ensures
        final(out)@.map_values(|f: Field| f@) == old(out)@.map_values(|f: Field| f@) + of_width(
            fields@.map_values(|f: Field| f@),
            w,
        ),
        narrow(final(out)@.map_values(|f: Field| f@)),
{
    let ghost start = out@.map_values(|f: Field| f@);
    let ghost models = fields@.map_values(|f: Field| f@);
    let mut i: usize = 0;
    while i < fields.len()
        invariant
            i <= fields.len(),
            models == fields@.map_values(|f: Field| f@),
            narrow(models),
            out@.map_values(|f: Field| f@) == start + of_width(models.subrange(0, i as int), w),
            narrow(out@.map_values(|f: Field| f@)),
        decreases fields.len() - i,
    {
        proof {
            assert(models.subrange(0, i + 1).drop_last() =~= models.subrange(0, i as int));
        }
        if fields[i].width == w {
            let ghost before = out@.map_values(|f: Field| f@);
            let copy = fields[i].duplicate();
            out.push(copy);
            proof {
                assert(out@.map_values(|f: Field| f@) =~= before.push(copy@));
                assert(copy@ == models[i as int]);
            }
        }
        i += 1;
    }
    proof {
        assert(models.subrange(0, i as int) =~= models);
    }
}

/// The fields `fields` sorted by decreasing width, keeping their order among fields of one
/// width.
fn sort_by_width(fields: &Vec<Field>) -> (res: Vec<Field>)
    requires
        narrow(fields@.map_values(|f: Field| f@)),
    ensures
        res@.map_values(|f: Field| f@) == width_order(fields@.map_values(|f: Field| f@)),
        narrow(res@.map_values(|f: Field| f@)),
{
    let mut res: Vec<Field> = Vec::new();
    proof {
        assert(res@.map_values(|f: Field| f@) =~= Seq::<FieldModel>::empty());
    }
    push_of_width(&mut res, fields, 8);
    push_of_width(&mut res, fields, 4);
    push_of_width(&mut res, fields, 2);
    push_of_width(&mut res, fields, 1);
    proof {
        let models = fields@.map_values(|f: Field| f@);
        assert(Seq::<FieldModel>::empty() + of_width(models, 8) =~= of_width(models, 8));
    }
    res
}

/// The sum of the widths of fields at most eight bytes wide is at most eight times their
/// number.
proof fn lemma_total_width_bound(fs: Seq<FieldModel>)
    requires
        narrow(fs),
    ensures
        0 <= total_width(fs) <= 8 * fs.len(),
    decreases fs.len(),
{
    if fs.len() > 0 {
        assert(narrow(fs.drop_last()));
        lemma_total_width_bound(fs.drop_last());
        assert(fs.last() == fs[fs.len() - 1]);
    }
}

/// Place `fields` one after the other from offset `start`; returns them and the offset where
/// they end.
fn place(fields: Vec<Field>, start: usize) -> (res: (Vec<Field>, usize))
    requires
        narrow(fields@.map_values(|f: Field| f@)),
        start + 8 * fields@.len() <= usize::MAX,
    ensures
        res.0@.map_values(|f: Field| f@) == placed(fields@.map_values(|f: Field| f@), start as int),
        res.1 == start + total_width(fields@.map_values(|f: Field| f@)),
{
    let ghost models = fields@.map_values(|f: Field| f@);
    let mut out: Vec<Field> = Vec::new();
    let mut offset = start;
    let mut fields = fields;
    let mut i: usize = 0;
    proof {
        assert(out@.map_values(|f: Field| f@) =~= placed(models.subrange(0, 0), start as int));
    }
    while i < fields.len()
        invariant
            i <= fields.len(),
            models == fields@.map_values(|f: Field| f@),
            narrow(models),
            start + 8 * fields@.len() <= usize::MAX,
            out@.map_values(|f: Field| f@) == placed(models.subrange(0, i as int), start as int),
            offset == start + total_width(models.subrange(0, i as int)),
        decreases fields.len() - i,
    {
        proof {
            assert(models.subrange(0, i + 1).drop_last() =~= models.subrange(0, i as int));
            lemma_total_width_bound(models.subrange(0, i as int));
        }
        let mut field = fields[i].duplicate();
        field.offset = offset;
        let ghost before = out@.map_values(|f: Field| f@);
        let width = field.width;
        out.push(field);
        proof {
            assert(out@.map_values(|f: Field| f@) =~= before.push(field@));
            assert(models[i as int].width <= 8);
            assert(models.subrange(0, i as int).len() == i);
        }
        offset = offset + width;
        i += 1;
    }
    proof {
        assert(models.subrange(0, i as int) =~= models);
    }
    (out, offset)
}

/// Sorting by width keeps the number of fields, and the sum of their widths.
pub proof fn lemma_width_order_keeps(fs: Seq<FieldModel>)
    requires
        narrow(fs),
    ensures
        width_order(fs).len() == fs.len(),
        total_width(width_order(fs)) == total_width(fs),
        narrow(width_order(fs)),
    decreases fs.len(),
{
    lemma_of_width_parts(fs);
    lemma_total_width_concat(of_width(fs, 8), of_width(fs, 4));
    lemma_total_width_concat(of_width(fs, 8) + of_width(fs, 4), of_width(fs, 2));
    lemma_total_width_concat(of_width(fs, 8) + of_width(fs, 4) + of_width(fs, 2), of_width(fs, 1));
    lemma_of_width_narrow(fs, 8);
    lemma_of_width_narrow(fs, 4);
    lemma_of_width_narrow(fs, 2);
    lemma_of_width_narrow(fs, 1);
    let w = width_order(fs);
    assert forall|i: int| 0 <= i < w.len() implies (#[trigger] w[i]).width == 1 || w[i].width == 2
        || w[i].width == 4 || w[i].width == 8 by {
        let a = of_width(fs, 8);
        let b = of_width(fs, 4);
        let c = of_width(fs, 2);
        let d = of_width(fs, 1);
        if i < a.len() {
            assert(w[i] == a[i]);
        } else if i < a.len() + b.len() {
            assert(w[i] == b[i - a.len()]);
        } else if i < a.len() + b.len() + c.len() {
            assert(w[i] == c[i - a.len() - b.len()]);
        } else {
            assert(w[i] == d[i - a.len() - b.len() - c.len()]);
        }
    }
}

/// The fields of one width are of that width.
proof fn lemma_of_width_narrow(fs: Seq<FieldModel>, w: usize)
    ensures
        forall|i: int| 0 <= i < of_width(fs, w).len() ==> (#[trigger] of_width(fs, w)[i]).width == w,
    decreases fs.len(),
{
    if fs.len() > 0 {
        lemma_of_width_narrow(fs.drop_last(), w);
    }
}

/// The fields of each of the four widths make up all the fields, in number and in width.
proof fn lemma_of_width_parts(fs: Seq<FieldModel>)
    requires
        narrow(fs),
    ensures
        of_width(fs, 8).len() + of_width(fs, 4).len() + of_width(fs, 2).len() + of_width(fs, 1).len()
            == fs.len(),
        total_width(of_width(fs, 8)) + total_width(of_width(fs, 4)) + total_width(of_width(fs, 2))
            + total_width(of_width(fs, 1)) == total_width(fs),
    decreases fs.len(),
{
    if fs.len() > 0 {
        let rest = fs.drop_last();
        assert(narrow(rest)) by {
            assert forall|i: int| 0 <= i < rest.len() implies (#[trigger] rest[i]).width == 1
                || rest[i].width == 2 || rest[i].width == 4 || rest[i].width == 8 by {
                assert(rest[i] == fs[i]);
            }
        }
        lemma_of_width_parts(rest);
        assert(fs.last() == fs[fs.len() - 1]);
        let x = fs.last();
        if x.width == 8 {
            assert(of_width(fs, 8).drop_last() == of_width(rest, 8));
        } else if x.width == 4 {
            assert(of_width(fs, 4).drop_last() == of_width(rest, 4));
        } else if x.width == 2 {
            assert(of_width(fs, 2).drop_last() == of_width(rest, 2));
        } else {
            assert(of_width(fs, 1).drop_last() == of_width(rest, 1));
        }
    }
}

/// The total width of two lists of fields one after the other is the sum of theirs.
pub proof fn lemma_total_width_concat(a: Seq<FieldModel>, b: Seq<FieldModel>)
    ensures
        total_width(a + b) == total_width(a) + total_width(b),
    decreases b.len(),
{
    if b.len() > 0 {
        assert((a + b).drop_last() =~= a + b.drop_last());
        lemma_total_width_concat(a, b.drop_last());
    } else {
        assert(a + b =~= a);
    }
}

/// Whether a method of a class file can be loaded: its name and descriptor are string
/// constants, and the descriptor denotes a method type.
pub open spec fn method_loadable(pool: Map<u16, crate::class_file::const_pool::ConstModel>, m: FileMethod) -> bool {
    &&& has_text(pool, m.name)
    &&& has_text(pool, m.descriptor)
    &&& parse_method(utf8_text(pool, m.descriptor)) is Parsed
}

/// The loaded method for the method `m` of a class file, of the class at `class`: its flags,
/// name, type and first `Code` attribute.
pub open spec fn method_of(pool: Map<u16, crate::class_file::const_pool::ConstModel>, m: FileMethod, class: usize) -> MethodInfo {
    MethodInfo {
        class,
        is_static: m.access_flags & ACCESS_FLAG_STATIC != 0,
        is_native: m.access_flags & ACCESS_FLAG_NATIVE != 0,
        is_synchronized: m.access_flags & ACCESS_FLAG_SYNC != 0,
        name: utf8_text(pool, m.name),
        descriptor: parse_method(utf8_text(pool, m.descriptor))->Parsed_0,
        code: match first_code(m.attributes) {
            Some(i) => Some(m.attributes[i]->Code_0),
            None => None,
        },
    }
}

/// The name index of the first `SourceFile` attribute among `attrs`, if any.
pub open spec fn source_file_index(attrs: Seq<ClassAttributeModel>) -> Option<u16>
    decreases attrs.len(),
{
    if attrs.len() == 0 {
        None
    } else {
        match attrs[0] {
            ClassAttributeModel::SourceFile(i) => Some(i),
            _ => source_file_index(attrs.drop_first()),
        }
    }
}

/// Whether a class file can be loaded: its constant pool, fields, methods and source file.
pub open spec fn class_loadable(file: ClassFileModel) -> bool {
    &&& pool_convertible(file.const_pool)
    &&& forall|i: int| 0 <= i < file.fields.len() ==> field_loadable(file.const_pool, #[trigger] file.fields[i])
    &&& forall|i: int| 0 <= i < file.methods.len() ==> method_loadable(file.const_pool, #[trigger] file.methods[i])
    &&& source_file_index(file.attributes) matches Some(i) ==> has_text(file.const_pool, i)
}

/// The instance fields of the class loaded from `file`, sorted, before they are placed.
pub open spec fn instance_order(file: ClassFileModel, class: usize) -> Seq<FieldModel> {
    width_order(declared(file.const_pool, file.fields, false, class))
}

/// The static fields of the class loaded from `file`, sorted, before they are placed.
pub open spec fn static_order(file: ClassFileModel, class: usize) -> Seq<FieldModel> {
    width_order(declared(file.const_pool, file.fields, true, class))
}

/// The class named `name` loaded from `file`, at index `class` of the method area, with the
/// given super class, whose objects' data is `super_width` bytes wide. Its instance fields
/// follow those of the super class; its static fields start at zero.
pub open spec fn loaded_class(
    name: Seq<char>,
    file: ClassFileModel,
    class: usize,
    super_class: Option<usize>,
    super_width: usize,
) -> ClassModel {
    let pool = file.const_pool;
    ClassModel {
        name,
        flags: file.access_flags,
        const_pool: runtime_pool(pool),
        super_class,
        instance_fields: placed(instance_order(file, class), super_width as int),
        static_fields: placed(static_order(file, class), 0),
        methods: file.methods.map_values(|m: FileMethod| method_of(pool, m, class)),
        instance_width: padded(super_width + total_width(instance_order(file, class))) as usize,
        static_width: padded(total_width(static_order(file, class))) as usize,
        source_file: match source_file_index(file.attributes) {
            Some(i) => Some(utf8_text(pool, i)),
            None => None,
        },
    }
}

/// The loaded method for the method `m` of the class file, of the class at `class`.
fn load_method(file: &ClassFile, m: &crate::class_file::Method, class: usize) -> (res: Method)
    requires
        method_loadable(file@.const_pool, m@),
    ensures
        res@ == method_of(file@.const_pool, m@, class),
{
    let name = text_at(file, m.name);
    let text = text_at(file, m.descriptor);
    let descriptor = match MethodType::from_descriptor(text.as_str()) {
        Ok(t) => t,
        Err(_) => unreached(),
    };
    let code = match m.code() {
        Some(c) => Some(c.duplicate()),
        None => None,
    };
    Method {
        class,
        is_static: m.access_flags & ACCESS_FLAG_STATIC != 0,
        is_native: m.access_flags & ACCESS_FLAG_NATIVE != 0,
        is_synchronized: m.access_flags & ACCESS_FLAG_SYNC != 0,
        name,
        descriptor,
        code,
    }
}

/// The loaded methods of the class file, in their order.
fn load_methods(file: &ClassFile, class: usize) -> (res: Vec<Method>)
    requires
        forall|i: int|
            0 <= i < file@.methods.len() ==> method_loadable(file@.const_pool, #[trigger] file@.methods[i]),
    ensures
        res@.map_values(|m: Method| m@) == file@.methods.map_values(
            |m: FileMethod| method_of(file@.const_pool, m, class),
        ),
{
    let ghost pool = file@.const_pool;
    let mut res: Vec<Method> = Vec::new();
    let mut i: usize = 0;
    while i < file.methods.len()
        invariant
            i <= file.methods.len(),
            pool == file@.const_pool,
            forall|k: int|
                0 <= k < file@.methods.len() ==> method_loadable(pool, #[trigger] file@.methods[k]),
            res@.len() == i,
            forall|k: int| 0 <= k < i ==> (#[trigger] res@[k])@ == method_of(pool, file@.methods[k], class),
        decreases file.methods.len() - i,
    {
        proof {
            assert(file@.methods[i as int] == file.methods@[i as int]@);
        }
        let method = load_method(file, &file.methods[i], class);
        res.push(method);
        i += 1;
    }
    proof {
        assert(res@.map_values(|m: Method| m@) =~= file@.methods.map_values(
            |m: FileMethod| method_of(pool, m, class),
        ));
    }
    res
}

/// Whether the field `f` of the class file can be loaded: its name and descriptor are string
/// constants, the descriptor that of a field type.
fn field_ok(file: &ClassFile, f: &FileField) -> (b: bool)
    ensures
        b == field_loadable(file@.const_pool, *f),
{
    if crate::method_area::const_pool::text_of(file, f.name).is_none() {
        return false;
    }
    match crate::method_area::const_pool::text_of(file, f.descriptor) {
        Some(d) => FieldType::from_descriptor(d.as_str()).is_ok(),
        None => false,
    }
}

/// Whether the method `m` of the class file can be loaded: its name and descriptor are string
/// constants, the descriptor that of a method type.
fn method_ok(file: &ClassFile, m: &crate::class_file::Method) -> (b: bool)
    ensures
        b == method_loadable(file@.const_pool, m@),
{
    if crate::method_area::const_pool::text_of(file, m.name).is_none() {
        return false;
    }
    match crate::method_area::const_pool::text_of(file, m.descriptor) {
        Some(d) => MethodType::from_descriptor(d.as_str()).is_ok(),
        None => false,
    }
}

/// Whether a class file can be loaded: its constant pool entries, fields and methods name what
/// they must, and its source file, if it names one, is a string constant.
pub fn class_file_loadable(file: &ClassFile) -> (b: bool)
    ensures
        b == class_loadable(file@),
{
    if !crate::method_area::const_pool::pool_ok(file) {
        return false;
    }
    let mut i: usize = 0;
    while i < file.fields.len()
        invariant
            i <= file.fields.len(),
            pool_convertible(file@.const_pool),
            forall|k: int| 0 <= k < i ==> field_loadable(file@.const_pool, #[trigger] file@.fields[k]),
        decreases file.fields.len() - i,
    {
        if !field_ok(file, &file.fields[i]) {
            assert(!field_loadable(file@.const_pool, file@.fields[i as int]));
            return false;
        }
        i += 1;
    }
    let mut j: usize = 0;
    while j < file.methods.len()
        invariant
            j <= file.methods.len(),
            pool_convertible(file@.const_pool),
            forall|k: int| 0 <= k < file@.fields.len() ==> field_loadable(file@.const_pool, #[trigger] file@.fields[k]),
            forall|k: int| 0 <= k < j ==> method_loadable(file@.const_pool, #[trigger] file@.methods[k]),
        decreases file.methods.len() - j,
    {
        if !method_ok(file, &file.methods[j]) {
            assert(!method_loadable(file@.const_pool, file@.methods[j as int]));
            return false;
        }
        j += 1;
    }
    let ghost attrs = file@.attributes;
    let mut a: usize = 0;
    proof {
        assert(attrs.subrange(0, attrs.len() as int) =~= attrs);
    }
    while a < file.attributes.len()
        invariant
            a <= file.attributes.len(),
            attrs == file@.attributes,
            attrs.len() == file.attributes.len(),
            source_file_index(attrs) == source_file_index(attrs.subrange(a as int, attrs.len() as int)),
            pool_convertible(file@.const_pool),
            forall|k: int| 0 <= k < file@.fields.len() ==> field_loadable(file@.const_pool, #[trigger] file@.fields[k]),
            forall|k: int| 0 <= k < file@.methods.len() ==> method_loadable(file@.const_pool, #[trigger] file@.methods[k]),
        decreases file.attributes.len() - a,
    {
        proof {
            let rest = attrs.subrange(a as int, attrs.len() as int);
            assert(rest.drop_first() =~= attrs.subrange(a + 1, attrs.len() as int));
            assert(rest[0] == file.attributes@[a as int]@);
        }
        match &file.attributes[a] {
            ClassAttribute::SourceFile(source_file) => {
                return crate::method_area::const_pool::text_of(file, source_file.source_file).is_some();
            },
            _ => {},
        }
        a += 1;
    }
    true
}

/// The text of the name of the class file's source file, if it has a `SourceFile` attribute.
fn load_source_file(file: &ClassFile) -> (res: Option<String>)
    requires
        source_file_index(file@.attributes) matches Some(i) ==> has_text(file@.const_pool, i),
    ensures
        match source_file_index(file@.attributes) {
            Some(i) => res matches Some(s) && s@ == utf8_text(file@.const_pool, i),
            None => res is None,
        },
{
    let ghost attrs = file@.attributes;
    let mut i: usize = 0;
    proof {
        assert(attrs.subrange(0, attrs.len() as int) =~= attrs);
    }
    while i < file.attributes.len()
        invariant
            i <= file.attributes.len(),
            attrs == file@.attributes,
            attrs.len() == file.attributes.len(),
            source_file_index(attrs) == source_file_index(attrs.subrange(i as int, attrs.len() as int)),
            source_file_index(attrs) matches Some(k) ==> has_text(file@.const_pool, k),
        decreases file.attributes.len() - i,
    {
        proof {
            let rest = attrs.subrange(i as int, attrs.len() as int);
            assert(rest.drop_first() =~= attrs.subrange(i + 1, attrs.len() as int));
            assert(rest[0] == file.attributes@[i as int]@);
        }
        match &file.attributes[i] {
            ClassAttribute::SourceFile(source_file) => {
                return Some(text_at(file, source_file.source_file));
            },
            _ => {},
        }
        i += 1;
    }
    None
}

/// The class named `name` loaded from `file`, at index `class` of the method area, with the
/// given super class, whose objects' data is `super_width` bytes wide.
pub fn define_class(
    name: String,
    file: &ClassFile,
    class: usize,
    super_class: Option<usize>,
    super_width: usize,
) -> (res: Class)
    requires
        class_loadable(file@),
        super_width + 8 * file@.fields.len() + ALIGN <= usize::MAX,
    ensures
        res@ == loaded_class(name@, file@, class, super_class, super_width),
{
    let ghost pool = file@.const_pool;
    let const_pool = ConstPool::new(file);

    let instance = declared_fields(file, false, class);
    let instance = sort_by_width(&instance);
    let statics = declared_fields(file, true, class);
    let statics = sort_by_width(&statics);
    proof {
        lemma_declared_len(pool, file@.fields, false, class);
        lemma_declared_len(pool, file@.fields, true, class);
        lemma_width_order_keeps(declared(pool, file@.fields, false, class));
        lemma_width_order_keeps(declared(pool, file@.fields, true, class));
        lemma_total_width_bound(instance_order(file@, class));
        lemma_total_width_bound(static_order(file@, class));
    }
    let (instance_fields, instance_offset) = place(instance, super_width);
    let (static_fields, static_offset) = place(statics, 0);

    let instance_pad = ALIGN - (instance_offset % ALIGN);
    let instance_width = instance_offset + instance_pad;
    let static_pad = ALIGN - (static_offset % ALIGN);
    let static_width = static_offset + static_pad;

    let methods = load_methods(file, class);
    let source_file = load_source_file(file);

    Class {
        name,
        flags: ClassFlags { bits: file.access_flags },
        const_pool,
        super_class,
        interfaces: Vec::new(),
        instance_fields,
        static_fields,
        methods,
        attributes: Vec::new(),
        instance_width,
        static_width,
        source_file,
    }
}

/// There are no more loaded fields of one kind than fields in the class file.
proof fn lemma_declared_len(
    pool: Map<u16, crate::class_file::const_pool::ConstModel>,
    fields: Seq<FileField>,
    statics: bool,
    class: usize,
)
    ensures
        declared(pool, fields, statics, class).len() <= fields.len(),
    decreases fields.len(),
{
    if fields.len() > 0 {
        lemma_declared_len(pool, fields.drop_last(), statics, class);
    }
}

/// Where each field lands when `fs` are placed from `start`: after the fields before it.
pub proof fn lemma_placed(fs: Seq<FieldModel>, start: int)
    ensures
        placed(fs, start).len() == fs.len(),
        forall|i: int|
            0 <= i < fs.len() ==> #[trigger] placed(fs, start)[i] == (FieldModel {
                offset: (start + total_width(fs.subrange(0, i))) as usize,
                ..fs[i]
            }),
    decreases fs.len(),
{
    if fs.len() > 0 {
        let rest = fs.drop_last();
        lemma_placed(rest, start);
        assert forall|i: int| 0 <= i < fs.len() implies #[trigger] placed(fs, start)[i] == (FieldModel {
            offset: (start + total_width(fs.subrange(0, i))) as usize,
            ..fs[i]
        }) by {
            if i < rest.len() {
                assert(rest.subrange(0, i) =~= fs.subrange(0, i));
                assert(rest[i] == fs[i]);
            } else {
                assert(fs.subrange(0, i) =~= rest);
            }
        }
    }
}

/// The widths of the fields before the one at `i`, and of it, add up to the widths of the
/// fields up to it; and they grow with the number of fields counted.
pub proof fn lemma_total_prefix(fs: Seq<FieldModel>, i: int, j: int)
    requires
        0 <= i < j <= fs.len(),
    ensures
        total_width(fs.subrange(0, i)) + fs[i].width == total_width(fs.subrange(0, i + 1)),
        total_width(fs.subrange(0, i + 1)) <= total_width(fs.subrange(0, j)),
    decreases j - i,
{
    assert(fs.subrange(0, i + 1).drop_last() =~= fs.subrange(0, i));
    if j > i + 1 {
        lemma_total_prefix(fs, i + 1, j);
    }
}

/// The widths of all the fields add up to at least those of the first ones.
pub proof fn lemma_total_whole(fs: Seq<FieldModel>, i: int)
    requires
        0 <= i < fs.len(),
    ensures
        total_width(fs.subrange(0, i + 1)) <= total_width(fs),
{
    lemma_total_prefix(fs, i, fs.len() as int);
    assert(fs.subrange(0, fs.len() as int) =~= fs);
}

/// Whether the fields `fs` occupy disjoint byte ranges, all between `lo` and `hi`.
pub open spec fn disjoint_within(fs: Seq<FieldModel>, lo: int, hi: int) -> bool {
    &&& forall|i: int| 0 <= i < fs.len() ==> lo <= (#[trigger] fs[i]).offset && fs[i].offset + fs[i].width <= hi
    &&& forall|i: int, j: int|
        0 <= i < j < fs.len() ==> (#[trigger] fs[i]).offset + fs[i].width <= (#[trigger] fs[j]).offset
}

/// Fields placed one after the other from `start` do not overlap, and lie between `start` and
/// the end of the last one.
pub proof fn lemma_placed_disjoint(fs: Seq<FieldModel>, start: int)
    requires
        0 <= start,
        start + total_width(fs) <= usize::MAX,
        narrow(fs),
    ensures
        disjoint_within(placed(fs, start), start, start + total_width(fs)),
{
    lemma_placed(fs, start);
    let p = placed(fs, start);
    assert forall|i: int| 0 <= i < p.len() implies start <= (#[trigger] p[i]).offset && p[i].offset
        + p[i].width <= start + total_width(fs) by {
        lemma_total_whole(fs, i);
        lemma_total_prefix(fs, i, i + 1);
        lemma_total_nonneg(fs.subrange(0, i));
    }
    assert forall|i: int, j: int| 0 <= i < j < p.len() implies (#[trigger] p[i]).offset + p[i].width
        <= (#[trigger] p[j]).offset by {
        lemma_total_prefix(fs, i, j);
        lemma_total_whole(fs, j);
        lemma_total_prefix(fs, j, j + 1);
        lemma_total_nonneg(fs.subrange(0, i));
    }
}

/// The sum of widths is not negative.
proof fn lemma_total_nonneg(fs: Seq<FieldModel>)
    ensures
        total_width(fs) >= 0,
    decreases fs.len(),
{
    if fs.len() > 0 {
        lemma_total_nonneg(fs.drop_last());
    }
}

/// The fields of a loaded class do not overlap. Its instance fields lie after the data of its
/// super class and within the width of its objects; its static fields within the width of its
/// static data. Both widths are multiples of the alignment, and every field of the class file
/// is kept, as an instance or a static field.
pub proof fn law_field_layout(
    name: Seq<char>,
    file: ClassFileModel,
    class: usize,
    super_class: Option<usize>,
    super_width: usize,
)
    requires
        class_loadable(file),
        super_width + 8 * file.fields.len() + ALIGN <= usize::MAX,
    ensures
        ({
            let c = loaded_class(name, file, class, super_class, super_width);
            &&& disjoint_within(c.instance_fields, super_width as int, c.instance_width as int)
            &&& disjoint_within(c.static_fields, 0, c.static_width as int)
            &&& c.instance_width % ALIGN == 0
            &&& c.static_width % ALIGN == 0
            &&& c.instance_fields.len() + c.static_fields.len() == file.fields.len()
        }),
{
    let pool = file.const_pool;
    lemma_declared_narrow(pool, file.fields, false, class);
    lemma_declared_narrow(pool, file.fields, true, class);
    lemma_declared_split(pool, file.fields, class);
    lemma_width_order_keeps(declared(pool, file.fields, false, class));
    lemma_width_order_keeps(declared(pool, file.fields, true, class));
    let inst = instance_order(file, class);
    let stat = static_order(file, class);
    lemma_total_width_bound(inst);
    lemma_total_width_bound(stat);
    lemma_placed_disjoint(inst, super_width as int);
    lemma_placed_disjoint(stat, 0);
    lemma_placed(inst, super_width as int);
    lemma_placed(stat, 0);
}

/// The loaded fields of a class file are one, two, four or eight bytes wide.
proof fn lemma_declared_narrow(
    pool: Map<u16, crate::class_file::const_pool::ConstModel>,
    fields: Seq<FileField>,
    statics: bool,
    class: usize,
)
    ensures
        narrow(declared(pool, fields, statics, class)),
    decreases fields.len(),
{
    if fields.len() > 0 {
        lemma_declared_narrow(pool, fields.drop_last(), statics, class);
    }
}

/// Every field of a class file is loaded as an instance field or as a static field.
proof fn lemma_declared_split(
    pool: Map<u16, crate::class_file::const_pool::ConstModel>,
    fields: Seq<FileField>,
    class: usize,
)
    ensures
        declared(pool, fields, false, class).len() + declared(pool, fields, true, class).len()
            == fields.len(),
    decreases fields.len(),
{
    if fields.len() > 0 {
        lemma_declared_split(pool, fields.drop_last(), class);
    }
}

/// The binary name of the super class of the class in `file`; `None` for a class without one
/// (index zero).
pub open spec fn super_name(file: ClassFileModel) -> Option<Seq<char>> {
    if file.super_class == 0 {
        None
    } else {
        Some(binary_name(utf8_text(file.const_pool, class_name_index(file.const_pool, file.super_class))))
    }
}

/// The binary name of the super class of the class in `file`, which must be loaded before it;
/// `None` for a class without one.
pub fn super_class_name(file: &ClassFile) -> (res: Option<String>)
    requires
        file@.super_class != 0 ==> names_class(file@.const_pool, file@.super_class),
    ensures
        match super_name(file@) {
            Some(n) => res matches Some(s) && s@ == n,
            None => res is None,
        },
{
    if file.super_class == 0 {
        None
    } else {
        let class = file.get_const_class(file.super_class);
        Some(class_name_at(file, class.name))
    }
}

} // verus!
