use robusta::class_reader::{Const, Reader};

#[test]
fn read_f32_infinity() {
    let bytes = vec![0x7F, 0x80, 0x00, 0x00];
    let mut reader = Reader::new(&bytes[..]);

    let f = f32::from_bits(reader.read_f32().unwrap());

    assert_eq!(f, f32::INFINITY);
}

#[test]
fn read_f32_neg_infinity() {
    let bytes = vec![0xFF, 0x80, 0x00, 0x00];
    let mut reader = Reader::new(&bytes[..]);

    let f = f32::from_bits(reader.read_f32().unwrap());

    assert_eq!(f, -f32::INFINITY);
}

#[test]
fn read_f32_nan() {
    let bytes = vec![0x7F, 0x80, 0, 1];
    let mut reader = Reader::new(&bytes[..]);

    let f = f32::from_bits(reader.read_f32().unwrap());

    assert!(f.is_nan());
}

#[test]
fn read_version() {
    let bytes = vec![0, 10, 0, 20];
    let mut reader = Reader::new(&bytes[..]);

    let version = reader.read_version().unwrap();

    assert_eq!(version.minor, 10);
    assert_eq!(version.major, 20);
}

#[test]
fn read_const_unknown_tag() {
    let bytes = vec![122];
    let mut reader = Reader::new(&bytes[..]);

    let con = reader.read_const();

    assert!(con.is_err());
}

#[test]
fn read_const_utf8() {
    let bytes = vec![1, 0, 3, 'a' as u8, 'b' as u8, 'c' as u8];
    let mut reader = Reader::new(&bytes[..]);

    let con = reader.read_const().unwrap();

    assert_eq!(Const::Utf8 { utf8: "abc".to_string() }, con);
}

#[test]
fn read_const_integer() {
    let bytes = vec![3, 0, 0x10, 0x20, 0x30];
    let mut reader = Reader::new(&bytes[..]);

    let con = reader.read_const().unwrap();

    assert_eq!(Const::Integer { value: 0x10_2030 }, con);
}

#[test]
fn read_const_float() {
    let bytes = vec![4, 10, 20, 30, 40];
    let mut reader = Reader::new(&bytes[..]);

    let con = reader.read_const().unwrap();

    let float: f32 = 0.0000000000000000000000000000000071316126;
    assert_eq!(Const::Float { bits: float.to_bits() }, con);
}

#[test]
fn read_const_long() {
    let bytes = vec![5, 1, 2, 3, 4, 5, 6, 7, 8];
    let mut reader = Reader::new(&bytes[..]);

    let con = reader.read_const().unwrap();

    assert_eq!(Const::Long { long: 72623859790382856 }, con);
}

#[test]
fn read_const_double() {
    let bytes = vec![6, 64, 36, 117, 194, 143, 92, 40, 246];
    let mut reader = Reader::new(&bytes[..]);

    let con = reader.read_const().unwrap();

    let double: f64 = 10.23;
    assert_eq!(Const::Double { bits: double.to_bits() }, con);
}

#[test]
fn read_const_class() {
    let bytes = vec![7, 0, 2];
    let mut reader = Reader::new(&bytes[..]);

    let con = reader.read_const().unwrap();

    assert_eq!(Const::Class { name_idx: 2 }, con);
}

#[test]
fn read_const_string() {
    let bytes = vec![8, 0, 2];
    let mut reader = Reader::new(&bytes[..]);

    let con = reader.read_const().unwrap();

    assert_eq!(Const::String { string_idx: 2 }, con);
}

#[test]
fn read_const_field() {
    let bytes = vec![9, 0, 1, 0, 2];
    let mut reader = Reader::new(&bytes[..]);

    let con = reader.read_const().unwrap();

    assert_eq!(Const::Field { class_idx: 1, name_and_type_idx: 2 }, con);
}

#[test]
fn read_const_method() {
    let bytes = vec![10, 0, 1, 0, 2];
    let mut reader = Reader::new(&bytes[..]);

    let con = reader.read_const().unwrap();

    assert_eq!(Const::Method { class_idx: 1, name_and_type_idx: 2 }, con);
}

#[test]
fn read_const_interface_method() {
    let bytes = vec![11, 0, 1, 0, 2];
    let mut reader = Reader::new(&bytes[..]);

    let con = reader.read_const().unwrap();

    assert_eq!(Const::InterfaceMethod { class_idx: 1, name_and_type_idx: 2 }, con);
}

#[test]
fn read_const_name_and_type() {
    let bytes = vec![12, 0, 1, 0, 2];
    let mut reader = Reader::new(&bytes[..]);

    let con = reader.read_const().unwrap();

    assert_eq!(Const::NameAndType { name_idx: 1, descriptor_idx: 2 }, con);
}

#[test]
fn read_const_method_handle() {
    let bytes = vec![15, 1, 0, 2];
    let mut reader = Reader::new(&bytes[..]);

    let con = reader.read_const().unwrap();

    assert_eq!(Const::MethodHandle { reference_kind: 1, reference_idx: 2 }, con);
}

#[test]
fn read_const_method_type() {
    let bytes = vec![16, 0, 2];
    let mut reader = Reader::new(&bytes[..]);

    let con = reader.read_const().unwrap();

    assert_eq!(Const::MethodType { descriptor_idx: 2 }, con);
}

#[test]
fn read_const_invoke_dynamic() {
    let bytes = vec![18, 0, 1, 0, 2];
    let mut reader = Reader::new(&bytes[..]);

    let con = reader.read_const().unwrap();

    assert_eq!(Const::InvokeDynamic { bootstrap_idx: 1, name_and_type_idx: 2 }, con);
}

#[test]
fn read_class_file_invalid_magic() {
    let bytes = vec![0, 1, 2, 3, 4, 5];
    let mut reader = Reader::new(&bytes[..]);

    let class_file = reader.read_class_file();

    assert!(class_file.is_err());
}

#[test]
fn read_class_file_minimal() {
    let bytes = vec![0xCA, 0xFE, 0xBA, 0xBE, 0, 40, 0, 50, 0, 1, 0, 1, 0, 2, 0, 3, 0, 0];
    let mut reader = Reader::new(&bytes[..]);

    let class_file = reader.read_class_file().unwrap();

    assert_eq!(class_file.version.minor, 40);
    assert_eq!(class_file.version.major, 50);
    assert!(class_file.const_pool.is_empty());
    assert_eq!(class_file.access_flags, 1);
    assert_eq!(class_file.this_class, 2);
    assert_eq!(class_file.super_class, 3);
    assert!(class_file.interfaces.is_empty());
}

#[test]
fn read_class_file_maximal() {
    let bytes = vec![0xCA, 0xFE, 0xBA, 0xBE, 0, 40, 0, 50, 0, 2, 7, 0, 10, 0xF0, 0xF1, 0xF2, 0xF3, 0xF4, 0xF5, 0, 2, 0xAA, 0xAB, 0xBA, 0xBB];
    let mut reader = Reader::new(&bytes[..]);

    let class_file = reader.read_class_file().unwrap();

    assert_eq!(class_file.version.minor, 40);
    assert_eq!(class_file.version.major, 50);
    assert_eq!(vec![Const::Class { name_idx: 10 }], class_file.const_pool);
    assert_eq!(class_file.access_flags, 0xF0F1);
    assert_eq!(class_file.this_class, 0xF2F3);
    assert_eq!(class_file.super_class, 0xF4F5);
    assert_eq!(class_file.interfaces, vec![0xAAAB, 0xBABB]);
}

#[test]
fn read_const_truncated_fails() {
    let bytes = vec![9, 0, 1, 0];
    let mut reader = Reader::new(&bytes[..]);

    assert!(reader.read_const().is_err());
}

#[test]
fn read_const_invalid_utf8_fails() {
    let bytes = vec![1, 0, 2, 0xC3, 0x28];
    let mut reader = Reader::new(&bytes[..]);

    assert!(reader.read_const().is_err());
}

#[test]
fn read_field_with_attribute() {
    let pool = vec![Const::Utf8 { utf8: "ConstantValue".to_string() }];
    let bytes = vec![0, 9, 0, 2, 0, 3, 0, 1, 0, 1, 0, 0, 0, 2, 0xAB, 0xCD];
    let mut reader = Reader::new(&bytes[..]);

    let field = reader.read_field(&pool[..]).unwrap();

    assert_eq!(field.access_flags, 9);
    assert_eq!(field.name_idx, 2);
    assert_eq!(field.descriptor_idx, 3);
    assert_eq!(field.attributes.len(), 1);
    let robusta::class_reader::Attribute::Other { name, info } = &field.attributes[0];
    assert_eq!(name, "ConstantValue");
    assert_eq!(info, &vec![0xAB, 0xCD]);
}

#[test]
fn expect_constants() {
    assert_eq!(Const::Utf8 { utf8: "abc".to_string() }.expect_utf8(), "abc");
    assert_eq!(Const::Integer { value: 7 }.expect_integer(), 7);
    assert_eq!(Const::Long { long: -3 }.expect_long(), -3);
    assert_eq!(Const::Class { name_idx: 4 }.expect_class(), 4);
    assert_eq!(Const::Field { class_idx: 1, name_and_type_idx: 2 }.expect_field(), (1, 2));
    assert_eq!(Const::NameAndType { name_idx: 5, descriptor_idx: 6 }.expect_name_and_type(), (5, 6));
}

#[test]
fn read_attribute_reads_raw_bytes() {
    // A name index that points to a string constant reads the attribute's raw bytes.
    let pool = vec![Const::Utf8 { utf8: "Code".to_string() }];
    let bytes = vec![0, 1, 0, 0, 0, 1, 9];
    let mut reader = Reader::new(&bytes[..]);
    let attribute = reader.read_attribute(&pool[..]).unwrap();
    let robusta::class_reader::Attribute::Other { name, info } = attribute;
    assert_eq!(name, "Code");
    assert_eq!(info, vec![9]);
}
