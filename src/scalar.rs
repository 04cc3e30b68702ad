//! Element types chosen at run time, and the devices that hold buffers.

use vstd::prelude::*;

verus! {

/// The element type of a buffer, selected at run time.
#[derive(Clone, Copy, Debug, PartialEq, Eq, Structural)]
pub enum ScalarType {
    U8,
    I8,
    U16,
    I16,
    F16,
    BF16,
    U32,
    I32,
    F32,
    U64,
    I64,
    F64,
}

impl ScalarType {
    /// The size of one element in bytes.
    pub open spec fn size_spec(self) -> nat {
        match self {
            ScalarType::U8 | ScalarType::I8 => 1,
            ScalarType::U16 | ScalarType::I16 | ScalarType::F16 | ScalarType::BF16 => 2,
            ScalarType::U32 | ScalarType::I32 | ScalarType::F32 => 4,
            ScalarType::U64 | ScalarType::I64 | ScalarType::F64 => 8,
        }
    }

    /// The size of one element in bytes.
    pub fn size(self) -> (r: usize)
        ensures
            r == self.size_spec(),
    {
        match self {
            ScalarType::U8 | ScalarType::I8 => 1,
            ScalarType::U16 | ScalarType::I16 | ScalarType::F16 | ScalarType::BF16 => 2,
            ScalarType::U32 | ScalarType::I32 | ScalarType::F32 => 4,
            ScalarType::U64 | ScalarType::I64 | ScalarType::F64 => 8,
        }
    }

    /// The short name of the element type.
    pub open spec fn name_spec(self) -> Seq<char> {
        match self {
            ScalarType::U8 => "u8"@,
            ScalarType::I8 => "i8"@,
            ScalarType::U16 => "u16"@,
            ScalarType::I16 => "i16"@,
            ScalarType::F16 => "f16"@,
            ScalarType::BF16 => "bf16"@,
            ScalarType::U32 => "u32"@,
            ScalarType::I32 => "i32"@,
            ScalarType::F32 => "f32"@,
            ScalarType::U64 => "u64"@,
            ScalarType::I64 => "i64"@,
            ScalarType::F64 => "f64"@,
        }
    }
}

/// A compute device: the host, or an accelerator chosen by index.
#[derive(Clone, Copy, Debug, PartialEq, Eq, Structural)]
pub enum Device {
    Host,
    Accelerator(usize),
}

} // verus!
