use robusta::java::{Double, FieldType, Float, Int, Long, MethodType, Reference, Value};

#[test]
fn from_descriptor_primitive() {
    assert_eq!(FieldType::from_descriptor("Z").unwrap(), FieldType::Boolean);
    assert_eq!(FieldType::from_descriptor("B").unwrap(), FieldType::Byte);
    assert_eq!(FieldType::from_descriptor("C").unwrap(), FieldType::Char);
    assert_eq!(FieldType::from_descriptor("S").unwrap(), FieldType::Short);
    assert_eq!(FieldType::from_descriptor("I").unwrap(), FieldType::Int);
    assert_eq!(FieldType::from_descriptor("J").unwrap(), FieldType::Long);
    assert_eq!(FieldType::from_descriptor("F").unwrap(), FieldType::Float);
    assert_eq!(FieldType::from_descriptor("D").unwrap(), FieldType::Double);
}

#[test]
fn from_descriptor_class() {
    assert_eq!(FieldType::from_descriptor("Labc;").unwrap(), FieldType::Reference("abc".to_string()));
    assert_eq!(FieldType::from_descriptor("Ljava/thing;").unwrap(), FieldType::Reference("java/thing".to_string()));
}

#[test]
fn from_descriptor_array() {
    assert_eq!(FieldType::from_descriptor("[Z").unwrap(), FieldType::Array(Box::new(FieldType::Boolean)));
    assert_eq!(FieldType::from_descriptor("[Ljava;").unwrap(), FieldType::Array(Box::new(FieldType::Reference("java".to_string()))));
    assert_eq!(FieldType::from_descriptor("[[Z").unwrap(), FieldType::Array(Box::new(FieldType::Array(Box::new(FieldType::Boolean)))));
}

#[test]
fn from_descriptor_errors() {
    assert!(FieldType::from_descriptor("").is_err());
    assert!(FieldType::from_descriptor("A").is_err());
    assert!(FieldType::from_descriptor("L").is_err());
    assert!(FieldType::from_descriptor("Labc").is_err());
    assert!(FieldType::from_descriptor("L;").is_err());
    assert!(FieldType::from_descriptor("[").is_err());
    assert!(FieldType::from_descriptor("[L").is_err());
    assert!(FieldType::from_descriptor("[L;").is_err());
}

#[test]
fn zero_value() {
    assert_eq!(FieldType::Boolean.zero_value(), Value::Int(Int(0)));
    assert_eq!(FieldType::Byte.zero_value(), Value::Int(Int(0)));
    assert_eq!(FieldType::Char.zero_value(), Value::Int(Int(0)));
    assert_eq!(FieldType::Short.zero_value(), Value::Int(Int(0)));
    assert_eq!(FieldType::Int.zero_value(), Value::Int(Int(0)));
    assert_eq!(FieldType::Long.zero_value(), Value::Long(Long(0)));
    assert_eq!(FieldType::Float.zero_value(), Value::Float(Float(0.0f32.to_bits())));
    assert_eq!(FieldType::Double.zero_value(), Value::Double(Double(0.0f64.to_bits())));
    assert_eq!(FieldType::Reference("abc".to_string()).zero_value(), Value::Reference(Reference(0)));
    assert_eq!(FieldType::Array(Box::new(FieldType::Byte)).zero_value(), Value::Reference(Reference(0)));
}

#[test]
fn from_descriptor() {
    assert_eq!(MethodType::from_descriptor("()V").unwrap(), MethodType { parameters: vec![], return_type: None });
    assert_eq!(MethodType::from_descriptor("(IJ)Z").unwrap(), MethodType { parameters: vec![FieldType::Int, FieldType::Long], return_type: Some(FieldType::Boolean) });
    assert_eq!(MethodType::from_descriptor("(ILabc;)Ldef;").unwrap(), MethodType {
        parameters: vec![
            FieldType::Int,
            FieldType::Reference("abc".to_string()),
        ],
        return_type: Some(FieldType::Reference("def".to_string())),
    });
    assert_eq!(MethodType::from_descriptor("([I)[La;").unwrap(), MethodType {
        parameters: vec![
            FieldType::Array(Box::new(FieldType::Int))
        ],
        return_type: Some(FieldType::Array(Box::new(FieldType::Reference("a".to_string())))),
    });
}
