//! Buffers of floating-point elements, held as raw bytes tagged with their
//! element type and device.

use vstd::prelude::*;

use crate::error::{DeviceError, Error};
use crate::scalar::{Device, ScalarType};

verus! {

/// The element type of a float buffer.
#[derive(Clone, Copy, Debug, PartialEq, Eq, Structural)]
pub enum FloatType {
    F16,
    BF16,
    F32,
    F64,
}

impl FloatType {
    /// The size of one element in bytes.
    pub open spec fn size_spec(self) -> nat {
        match self {
            FloatType::F16 | FloatType::BF16 => 2,
            FloatType::F32 => 4,
            FloatType::F64 => 8,
        }
    }

    /// The size of one element in bytes.
    pub fn size(self) -> (r: usize)
        ensures
            r == self.size_spec(),
    {
        match self {
            FloatType::F16 | FloatType::BF16 => 2,
            FloatType::F32 => 4,
            FloatType::F64 => 8,
        }
    }

    /// The general element type that this float type is.
    pub open spec fn scalar_type_spec(self) -> ScalarType {
        match self {
            FloatType::F16 => ScalarType::F16,
            FloatType::BF16 => ScalarType::BF16,
            FloatType::F32 => ScalarType::F32,
            FloatType::F64 => ScalarType::F64,
        }
    }

    /// The general element type that this float type is.
    pub fn scalar_type(self) -> (r: ScalarType)
        ensures
            r == self.scalar_type_spec(),
    {
        match self {
            FloatType::F16 => ScalarType::F16,
            FloatType::BF16 => ScalarType::BF16,
            FloatType::F32 => ScalarType::F32,
            FloatType::F64 => ScalarType::F64,
        }
    }
}

/// One float element, given by its type and its bit pattern.
#[derive(Clone, Copy, Debug, PartialEq, Eq, Structural)]
pub enum FloatElem {
    F16(u16),
    BF16(u16),
    F32(u32),
    F64(u64),
}

/// The `n` low bytes of `bits`, least significant first.
pub open spec fn le_bytes(bits: nat, n: nat) -> Seq<u8>
    decreases n,
{
    if n == 0 {
        Seq::empty()
    } else {
        seq![(bits % 256) as u8] + le_bytes(bits / 256, (n - 1) as nat)
    }
}

/// `s` written `n` times in a row.
pub open spec fn repeat(s: Seq<u8>, n: nat) -> Seq<u8>
    decreases n,
{
    if n == 0 {
        Seq::empty()
    } else {
        repeat(s, (n - 1) as nat) + s
    }
}

impl FloatElem {
    pub open spec fn float_type_spec(self) -> FloatType {
        match self {
            FloatElem::F16(_) => FloatType::F16,
            FloatElem::BF16(_) => FloatType::BF16,
            FloatElem::F32(_) => FloatType::F32,
            FloatElem::F64(_) => FloatType::F64,
        }
    }

    pub open spec fn bits(self) -> nat {
        match self {
            FloatElem::F16(b) => b as nat,
            FloatElem::BF16(b) => b as nat,
            FloatElem::F32(b) => b as nat,
            FloatElem::F64(b) => b as nat,
        }
    }

    /// The little-endian encoding of the element.
    pub open spec fn bytes_spec(self) -> Seq<u8> {
        le_bytes(self.bits(), self.float_type_spec().size_spec())
    }

    /// The element type of the element.
    pub fn float_type(self) -> (r: FloatType)
        ensures
            r == self.float_type_spec(),
    {
        match self {
            FloatElem::F16(_) => FloatType::F16,
            FloatElem::BF16(_) => FloatType::BF16,
            FloatElem::F32(_) => FloatType::F32,
            FloatElem::F64(_) => FloatType::F64,
        }
    }

    /// The little-endian encoding of the element.
    pub fn to_bytes(self) -> (r: Vec<u8>)
        ensures
            r@ == self.bytes_spec(),
    {
        let (bits, n): (u64, usize) = match self {
            FloatElem::F16(b) => (b as u64, 2),
            FloatElem::BF16(b) => (b as u64, 2),
            FloatElem::F32(b) => (b as u64, 4),
            FloatElem::F64(b) => (b, 8),
        };
        let mut out: Vec<u8> = Vec::new();
        let mut cur: u64 = bits;
        let mut k: usize = 0;
        while k < n
            invariant
                k <= n,
                out@ + le_bytes(cur as nat, (n - k) as nat) == le_bytes(bits as nat, n as nat),
            decreases n - k,
        {
            proof {
                assert(out@ + le_bytes(cur as nat, (n - k) as nat) == out@.push((cur % 256) as u8)
                    + le_bytes((cur / 256) as nat, (n - k - 1) as nat));
            }
            out.push((cur % 256) as u8);
            cur = cur / 256;
            k += 1;
        }
        proof {
            assert(out@ + le_bytes(cur as nat, 0) =~= out@);
        }
        out
    }
}

/// What a buffer holds: its element type, its device and its bytes.
pub struct BufferModel {
    pub float_type: FloatType,
    pub device: Device,
    pub bytes: Seq<u8>,
}

impl BufferModel {
    /// The number of elements.
    pub open spec fn len(self) -> nat {
        self.bytes.len() / self.float_type.size_spec()
    }

    /// Whole elements only, within the size that memory can hold.
    pub open spec fn wf(self) -> bool {
        self.bytes.len() % self.float_type.size_spec() == 0 && fits_in_memory(
            self.bytes.len() as int,
        )
    }
}

/// A buffer owned exclusively.
pub struct FloatBuffer {
    float_type: FloatType,
    device: Device,
    data: Vec<u8>,
}

/// A buffer shared through a reference count.
pub type FloatArcBuffer = std::rc::Rc<FloatBuffer>;

impl View for FloatBuffer {
    type V = BufferModel;

    closed spec fn view(&self) -> BufferModel {
        BufferModel { float_type: self.float_type, device: self.device, bytes: self.data@ }
    }
}

impl Clone for FloatBuffer {
    /// A copy of the buffer, on the same device.
    fn clone(&self) -> (r: Self)
        ensures
            r@ == self@,
    {
        FloatBuffer { float_type: self.float_type, device: self.device, data: copy_bytes(self.data.as_slice()) }
    }
}

/// The largest buffer, in bytes, that a device can hold.
pub open spec fn fits_in_memory(bytes: int) -> bool {
    bytes <= isize::MAX
}

/// Copies bytes into a new vector.
fn copy_bytes(s: &[u8]) -> (r: Vec<u8>)
    ensures
        r@ == s@,
{
    let mut r: Vec<u8> = Vec::new();
    let mut i: usize = 0;
    while i < s.len()
        invariant
            i <= s@.len(),
            r@ == s@.subrange(0, i as int),
        decreases s@.len() - i,
    {
        r.push(s[i]);
        i += 1;
        proof {
            assert(r@ =~= s@.subrange(0, i as int));
        }
    }
    proof {
        assert(s@.subrange(0, i as int) =~= s@);
    }
    r
}

impl FloatBuffer {
    /// A buffer of `len` elements of `float_type` on `device`, every byte zero.
    ///
    /// Fails with a device error where the bytes do not fit in memory.
    pub fn zeros(float_type: FloatType, device: Device, len: usize) -> (r: Result<Self, Error>)
        ensures
            match r {
                Ok(b) => fits_in_memory(len * float_type.size_spec()) && b@ == BufferModel {
                    float_type,
                    device,
                    bytes: Seq::new((len * float_type.size_spec()) as nat, |i: int| 0u8),
                },
                Err(e) => !fits_in_memory(len * float_type.size_spec()) && e == Error::Device(
                    DeviceError::AllocationTooLarge,
                ),
            },
    {
        let size = float_type.size();
        if len > (isize::MAX as usize) / size {
            proof {
                assert(len * size > isize::MAX) by (nonlinear_arith)
                    requires
                        len > (isize::MAX as usize) / size,
                        size > 0,
                ;
            }
            return Err(Error::Device(DeviceError::AllocationTooLarge));
        }
        proof {
            assert(len * size <= isize::MAX) by (nonlinear_arith)
                requires
                    len <= (isize::MAX as usize) / size,
                    size > 0,
            ;
        }
        let n = len * size;
        let mut data: Vec<u8> = Vec::new();
        let mut i: usize = 0;
        while i < n
            invariant
                i <= n,
                data@ == Seq::new(i as nat, |j: int| 0u8),
            decreases n - i,
        {
            data.push(0);
            i += 1;
            proof {
                assert(data@ =~= Seq::new(i as nat, |j: int| 0u8));
            }
        }
        Ok(FloatBuffer { float_type, device, data })
    }

    /// A buffer of `len` elements of `float_type` on `device` whose contents are
    /// not specified: the caller writes every element before reading one.
    ///
    /// Fails with a device error where the bytes do not fit in memory.
    pub fn alloc_uninit(float_type: FloatType, device: Device, len: usize) -> (r: Result<Self, Error>)
        ensures
            match r {
                Ok(b) => fits_in_memory(len * float_type.size_spec()) && b@.float_type == float_type
                    && b@.device == device && b@.bytes.len() == len * float_type.size_spec(),
                Err(e) => !fits_in_memory(len * float_type.size_spec()) && e == Error::Device(
                    DeviceError::AllocationTooLarge,
                ),
            },
    {
        FloatBuffer::zeros(float_type, device, len)
    }

    /// A buffer of `len` copies of `elem` on `device`.
    ///
    /// Fails with a device error where the bytes do not fit in memory.
    pub fn from_elem(device: Device, len: usize, elem: FloatElem) -> (r: Result<Self, Error>)
        ensures
            match r {
                Ok(b) => fits_in_memory(len * elem.float_type_spec().size_spec()) && b@
                    == BufferModel {
                    float_type: elem.float_type_spec(),
                    device,
                    bytes: repeat(elem.bytes_spec(), len as nat),
                },
                Err(e) => !fits_in_memory(len * elem.float_type_spec().size_spec()) && e
                    == Error::Device(DeviceError::AllocationTooLarge),
            },
    {
        let float_type = elem.float_type();
        let size = float_type.size();
        if len > (isize::MAX as usize) / size {
            proof {
                assert(len * size > isize::MAX) by (nonlinear_arith)
                    requires
                        len > (isize::MAX as usize) / size,
                        size > 0,
                ;
            }
            return Err(Error::Device(DeviceError::AllocationTooLarge));
        }
        proof {
            assert(len * size <= isize::MAX) by (nonlinear_arith)
                requires
                    len <= (isize::MAX as usize) / size,
                    size > 0,
            ;
        }
        let one = elem.to_bytes();
        proof {
            lemma_le_bytes_len(elem.bits(), size as nat);
        }
        let mut data: Vec<u8> = Vec::new();
        let mut k: usize = 0;
        while k < len
            invariant
                k <= len,
                one@ == elem.bytes_spec(),
                one@.len() == size,
                data@ == repeat(one@, k as nat),
            decreases len - k,
        {
            let mut j: usize = 0;
            while j < size
                invariant
                    j <= size == one@.len(),
                    data@ == repeat(one@, k as nat) + one@.subrange(0, j as int),
                decreases size - j,
            {
                data.push(one[j]);
                j += 1;
                proof {
                    assert(data@ =~= repeat(one@, k as nat) + one@.subrange(0, j as int));
                }
            }
            k += 1;
            proof {
                assert(one@.subrange(0, size as int) =~= one@);
            }
        }
        Ok(FloatBuffer { float_type, device, data })
    }

    /// A buffer over the given bytes.
    ///
    /// Fails with a shape error where the byte count is not a whole number of
    /// elements, and with a device error where it does not fit in memory.
    pub fn from_bytes(float_type: FloatType, device: Device, data: Vec<u8>) -> (r: Result<
        Self,
        Error,
    >)
        ensures
            match r {
                Ok(b) => b@.wf() && b@ == BufferModel { float_type, device, bytes: data@ },
                Err(e) => if data@.len() % float_type.size_spec() != 0 {
                    e == Error::Shape
                } else {
                    !fits_in_memory(data@.len() as int) && e == Error::Device(
                        DeviceError::AllocationTooLarge,
                    )
                },
            },
    {
        if data.len() % float_type.size() != 0 {
            return Err(Error::Shape);
        }
        if data.len() > isize::MAX as usize {
            return Err(Error::Device(DeviceError::AllocationTooLarge));
        }
        Ok(FloatBuffer { float_type, device, data })
    }

    /// A buffer over `data`, as it is.
    pub(crate) fn from_parts(float_type: FloatType, device: Device, data: Vec<u8>) -> (r: Self)
        ensures
            r@ == (BufferModel { float_type, device, bytes: data@ }),
    {
        FloatBuffer { float_type, device, data }
    }

    pub fn device(&self) -> (r: Device)
        ensures
            r == self@.device,
    {
        self.device
    }

    pub fn float_type(&self) -> (r: FloatType)
        ensures
            r == self@.float_type,
    {
        self.float_type
    }

    /// The number of elements.
    pub fn len(&self) -> (r: usize)
        ensures
            r == self@.len(),
    {
        self.data.len() / self.float_type.size()
    }

    /// Whether the buffer holds no bytes.
    pub fn is_empty(&self) -> (r: bool)
        ensures
            r == (self@.bytes.len() == 0),
    {
        self.data.len() == 0
    }

    /// Borrows the buffer.
    pub fn as_slice(&self) -> (r: FloatSlice<'_>)
        ensures
            r@ == self@,
    {
        FloatSlice { float_type: self.float_type, device: self.device, data: self.data.as_slice() }
    }

    /// Borrows the buffer mutably; the buffer ends with what the borrow holds last.
    pub fn as_slice_mut(&mut self) -> (r: FloatSliceMut<'_>)
        ensures
            r@ == old(self)@,
            final(self)@ == (BufferModel { bytes: final(r.data)@, ..old(self)@ }),
    {
        FloatSliceMut {
            float_type: self.float_type,
            device: self.device,
            data: self.data.as_mut_slice(),
        }
    }

    /// The bytes of the buffer.
    pub fn into_bytes(self) -> (r: Vec<u8>)
        ensures
            r@ == self@.bytes,
    {
        self.data
    }
}

pub proof fn lemma_repeat_len(s: Seq<u8>, n: nat)
    ensures
        repeat(s, n).len() == n * s.len(),
    decreases n,
{
    if n > 0 {
        let m = (n - 1) as nat;
        lemma_repeat_len(s, m);
        assert(repeat(s, n).len() == repeat(s, m).len() + s.len());
        let k = s.len() as int;
        assert(m * k + k == n * k) by (nonlinear_arith)
            requires
                m + 1 == n,
        ;
    } else {
        assert(n * s.len() == 0) by (nonlinear_arith)
            requires
                n == 0,
        ;
    }
}

pub proof fn lemma_le_bytes_len(bits: nat, n: nat)
    ensures
        le_bytes(bits, n).len() == n,
    decreases n,
{
    if n > 0 {
        lemma_le_bytes_len(bits / 256, (n - 1) as nat);
    }
}

/// A borrowed buffer.
#[derive(Clone, Copy)]
pub struct FloatSlice<'a> {
    float_type: FloatType,
    device: Device,
    data: &'a [u8],
}

impl<'a> View for FloatSlice<'a> {
    type V = BufferModel;

    closed spec fn view(&self) -> BufferModel {
        BufferModel { float_type: self.float_type, device: self.device, bytes: self.data@ }
    }
}

impl<'a> FloatSlice<'a> {
    pub fn device(&self) -> (r: Device)
        ensures
            r == self@.device,
    {
        self.device
    }

    /// The number of elements.
    pub fn len(&self) -> (r: usize)
        ensures
            r == self@.len(),
    {
        self.data.len() / self.float_type.size()
    }

    /// Whether the slice holds no bytes.
    pub fn is_empty(&self) -> (r: bool)
        ensures
            r == (self@.bytes.len() == 0),
    {
        self.data.len() == 0
    }

    pub fn float_type(&self) -> (r: FloatType)
        ensures
            r == self@.float_type,
    {
        self.float_type
    }

    /// The same borrow.
    pub fn as_slice(&self) -> (r: FloatSlice<'a>)
        ensures
            r@ == self@,
    {
        FloatSlice { float_type: self.float_type, device: self.device, data: self.data }
    }

    /// Copies the elements into a new buffer on the same device.
    pub fn to_owned(&self) -> (r: FloatBuffer)
        ensures
            r@ == self@,
    {
        FloatBuffer { float_type: self.float_type, device: self.device, data: copy_bytes(self.data) }
    }

    /// Copies the elements into a new buffer on `device`.
    pub fn to_device(&self, device: Device) -> (r: FloatBuffer)
        ensures
            r@ == (BufferModel { device, ..self@ }),
    {
        FloatBuffer { float_type: self.float_type, device, data: copy_bytes(self.data) }
    }

    /// The bytes of the slice.
    pub fn as_bytes(&self) -> (r: &'a [u8])
        ensures
            r@ == self@.bytes,
    {
        self.data
    }
}

/// A mutably borrowed buffer: what is written through it is written to the
/// buffer that was borrowed.
pub struct FloatSliceMut<'a> {
    pub float_type: FloatType,
    pub device: Device,
    pub data: &'a mut [u8],
}

impl<'a> View for FloatSliceMut<'a> {
    type V = BufferModel;

    closed spec fn view(&self) -> BufferModel {
        BufferModel { float_type: self.float_type, device: self.device, bytes: self.data@ }
    }
}

impl<'a> FloatSliceMut<'a> {
    pub fn device(&self) -> (r: Device)
        ensures
            r == self@.device,
    {
        self.device
    }

    /// The number of elements.
    pub fn len(&self) -> (r: usize)
        ensures
            r == self@.len(),
    {
        self.data.len() / self.float_type.size()
    }

    /// Whether the slice holds no bytes.
    pub fn is_empty(&self) -> (r: bool)
        ensures
            r == (self@.bytes.len() == 0),
    {
        self.data.len() == 0
    }

    /// Borrows the slice immutably.
    pub fn as_slice(&self) -> (r: FloatSlice<'_>)
        ensures
            r@ == self@,
    {
        FloatSlice { float_type: self.float_type, device: self.device, data: &*self.data }
    }

    /// Reborrows the slice mutably; the slice ends with what the reborrow holds last.
    pub fn as_slice_mut(&mut self) -> (r: FloatSliceMut<'_>)
        ensures
            r@ == old(self)@,
            final(self)@ == (BufferModel { bytes: final(r.data)@, ..old(self)@ }),
    {
        FloatSliceMut { float_type: self.float_type, device: self.device, data: &mut *self.data }
    }

    /// Writes `byte` at byte offset `i`.
    pub fn write_byte(&mut self, i: usize, byte: u8)
        requires
            i < old(self)@.bytes.len(),
        ensures
            final(self)@ == (BufferModel { bytes: old(self)@.bytes.update(i as int, byte), ..old(self)@ }),
    {
        self.data[i] = byte;
    }
}

/// A buffer that is either borrowed or owned.
pub enum FloatCowBuffer<'a> {
    Borrowed(FloatSlice<'a>),
    Owned(FloatBuffer),
}

impl<'a> View for FloatCowBuffer<'a> {
    type V = BufferModel;

    open spec fn view(&self) -> BufferModel {
        match self {
            FloatCowBuffer::Borrowed(s) => s@,
            FloatCowBuffer::Owned(b) => b@,
        }
    }
}

impl<'a> FloatCowBuffer<'a> {
    pub fn device(&self) -> (r: Device)
        ensures
            r == self@.device,
    {
        match self {
            FloatCowBuffer::Borrowed(s) => s.device(),
            FloatCowBuffer::Owned(b) => b.device(),
        }
    }

    /// The number of elements.
    pub fn len(&self) -> (r: usize)
        ensures
            r == self@.len(),
    {
        match self {
            FloatCowBuffer::Borrowed(s) => s.len(),
            FloatCowBuffer::Owned(b) => b.len(),
        }
    }

    /// Whether the buffer holds no bytes.
    pub fn is_empty(&self) -> (r: bool)
        ensures
            r == (self@.bytes.len() == 0),
    {
        match self {
            FloatCowBuffer::Borrowed(s) => s.is_empty(),
            FloatCowBuffer::Owned(b) => b.is_empty(),
        }
    }

    /// Borrows the buffer.
    pub fn as_slice(&self) -> (r: FloatSlice<'_>)
        ensures
            r@ == self@,
    {
        match self {
            FloatCowBuffer::Borrowed(s) => s.as_slice(),
            FloatCowBuffer::Owned(b) => b.as_slice(),
        }
    }

    /// The owned buffer, or the borrow unchanged.
    pub fn try_unwrap(self) -> (r: Result<FloatBuffer, Self>)
        ensures
            match r {
                Ok(b) => self is Owned && b@ == self@,
                Err(c) => self is Borrowed && c == self,
            },
    {
        match self {
            FloatCowBuffer::Owned(b) => Ok(b),
            FloatCowBuffer::Borrowed(s) => Err(FloatCowBuffer::Borrowed(s)),
        }
    }
}

} // verus!
