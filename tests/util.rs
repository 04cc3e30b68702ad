use autograph::scalar::ScalarType;
use autograph::util;
use autograph::util::elem_type_name;

#[test]
fn type_eq() {
    assert!(util::type_eq(ScalarType::F32, ScalarType::F32));
    assert!(!util::type_eq(ScalarType::F32, ScalarType::U32));
}

#[test]
fn size_eq() {
    assert!(util::size_eq(ScalarType::F16, ScalarType::U16));
    assert!(!util::size_eq(ScalarType::F64, ScalarType::U32));
}

#[test]
fn elem_type_names_are_short() {
    assert_eq!(elem_type_name(ScalarType::F16), "f16");
    assert_eq!(elem_type_name(ScalarType::BF16), "bf16");
    assert_eq!(elem_type_name(ScalarType::U32), "u32");
    assert_eq!(elem_type_name(ScalarType::I64), "i64");
}

#[test]
fn scalar_sizes() {
    assert_eq!(ScalarType::U8.size(), 1);
    assert_eq!(ScalarType::BF16.size(), 2);
    assert_eq!(ScalarType::I32.size(), 4);
    assert_eq!(ScalarType::F64.size(), 8);
}
