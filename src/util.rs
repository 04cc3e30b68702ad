//! Comparisons and names of element types.

use vstd::prelude::*;

use crate::scalar::ScalarType;

verus! {

/// The short name of an element type (`"f16"`, `"bf16"`, `"u32"`, ...).
pub fn elem_type_name(t: ScalarType) -> (r: &'static str)
    ensures
        r@ == t.name_spec(),
{
    match t {
        ScalarType::U8 => "u8",
        ScalarType::I8 => "i8",
        ScalarType::U16 => "u16",
        ScalarType::I16 => "i16",
        ScalarType::F16 => "f16",
        ScalarType::BF16 => "bf16",
        ScalarType::U32 => "u32",
        ScalarType::I32 => "i32",
        ScalarType::F32 => "f32",
        ScalarType::U64 => "u64",
        ScalarType::I64 => "i64",
        ScalarType::F64 => "f64",
    }
}

/// Whether two element types are the same type.
pub fn type_eq(a: ScalarType, b: ScalarType) -> (r: bool)
    ensures
        r == (a == b),
{
    a == b
}

/// Whether two element types have the same size in bytes.
pub fn size_eq(a: ScalarType, b: ScalarType) -> (r: bool)
    ensures
        r == (a.size_spec() == b.size_spec()),
{
    a.size() == b.size()
}

} // verus!
