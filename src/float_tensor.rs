//! Float tensors: a shape and strides over one of five ownership
//! representations of a float buffer.

use vstd::prelude::*;

use crate::dims::{
    default_strides, default_strides_of, has_zero, is_standard_layout, layout_ok,
    lemma_product_reverse, lemma_reversed_layout_strides, lemma_suffix_bounded, offset_of,
    offset_prefix, product, reversed, shape_fits, shape_size, standard_layout, trailing_product,
    unravel_row_major,
};
use crate::error::{DeviceError, Error};
use crate::float::{
    fits_in_memory, BufferModel, FloatArcBuffer, FloatBuffer, FloatCowBuffer, FloatElem,
    FloatSlice, FloatSliceMut, FloatType,
};
use crate::scalar::Device;

verus! {

/// The capabilities shared by every representation of a tensor's data.
pub trait FloatData: Sized {
    /// What the data holds.
    spec fn model(&self) -> BufferModel;

    /// Whether the data owns its buffer outright, so that it gives it up without a copy.
    spec fn owns_buffer(&self) -> bool;

    /// Whether the data may give up its buffer without a copy.
    spec fn holds_buffer(&self) -> bool;

    fn device(&self) -> (r: Device)
        ensures
            r == self.model().device,
    ;

    /// The number of elements.
    fn len(&self) -> (r: usize)
        ensures
            r == self.model().len(),
    ;

    fn is_empty(&self) -> (r: bool)
        ensures
            r == (self.model().bytes.len() == 0),
    ;

    /// Borrows the data.
    fn as_slice(&self) -> (r: FloatSlice<'_>)
        ensures
            r@ == self.model(),
    ;

    /// The buffer, where it can be had without a copy; else the data unchanged.
    fn try_into_buffer(self) -> (r: Result<FloatBuffer, Self>)
        ensures
            self.owns_buffer() ==> self.holds_buffer(),
            match r {
                Ok(b) => self.holds_buffer() && b@ == self.model(),
                Err(s) => !self.owns_buffer() && s == self,
            },
    ;

    /// The buffer behind a reference count, where it can be had without a copy;
    /// else the data unchanged.
    fn try_into_arc_buffer(self) -> (r: Result<FloatArcBuffer, Self>)
        ensures
            match r {
                Ok(b) => self.holds_buffer() && b@ == self.model(),
                Err(s) => !self.holds_buffer() && s == self,
            },
    ;
}

/// The data as an owned buffer, copied unless it can be had without a copy.
pub(crate) fn into_owned_repr<S: FloatData>(data: S) -> (r: FloatOwnedRepr)
    ensures
        r@ == data.model(),
{
    match data.try_into_buffer() {
        Ok(buffer) => FloatOwnedRepr(buffer),
        Err(this) => FloatOwnedRepr(this.as_slice().to_owned()),
    }
}

/// The data as a shared buffer, copied unless it can be had without a copy.
pub(crate) fn into_shared_repr<S: FloatData>(data: S) -> (r: FloatArcRepr)
    ensures
        r@ == data.model(),
{
    match data.try_into_arc_buffer() {
        Ok(buffer) => FloatArcRepr(buffer),
        Err(this) => FloatArcRepr(std::rc::Rc::new(this.as_slice().to_owned())),
    }
}

/// Representations that can be built from a buffer.
pub trait FloatDataOwned: FloatData {
    fn from_buffer(buffer: FloatBuffer) -> (r: Self)
        ensures
            r.model() == buffer@,
    ;
}

/// Representations whose data can be written.
pub trait FloatDataMut: FloatData {
    /// Borrows the data mutably; the data ends with what the borrow holds last.
    fn as_slice_mut(&mut self) -> (r: FloatSliceMut<'_>)
        ensures
            r@ == old(self).model(),
            final(self).model() == (BufferModel { bytes: final(r.data)@, ..old(self).model() }),
    ;
}

/// An exclusively owned buffer.
pub struct FloatOwnedRepr(FloatBuffer);

impl View for FloatOwnedRepr {
    type V = BufferModel;

    closed spec fn view(&self) -> BufferModel {
        self.0@
    }
}

impl FloatData for FloatOwnedRepr {
    open spec fn model(&self) -> BufferModel {
        self@
    }

    open spec fn owns_buffer(&self) -> bool {
        true
    }

    open spec fn holds_buffer(&self) -> bool {
        true
    }

    fn device(&self) -> (r: Device) {
        self.0.device()
    }

    fn len(&self) -> (r: usize) {
        self.0.len()
    }

    fn is_empty(&self) -> (r: bool) {
        self.0.is_empty()
    }

    fn as_slice(&self) -> (r: FloatSlice<'_>) {
        self.0.as_slice()
    }

    fn try_into_buffer(self) -> (r: Result<FloatBuffer, Self>) {
        Ok(self.0)
    }

    fn try_into_arc_buffer(self) -> (r: Result<FloatArcBuffer, Self>) {
        Ok(std::rc::Rc::new(self.0))
    }
}

impl FloatDataOwned for FloatOwnedRepr {
    fn from_buffer(buffer: FloatBuffer) -> (r: Self) {
        FloatOwnedRepr(buffer)
    }
}

impl FloatDataMut for FloatOwnedRepr {
    fn as_slice_mut(&mut self) -> (r: FloatSliceMut<'_>) {
        self.0.as_slice_mut()
    }
}

/// A buffer shared through a reference count.
#[derive(Clone)]
pub struct FloatArcRepr(FloatArcBuffer);

impl View for FloatArcRepr {
    type V = BufferModel;

    closed spec fn view(&self) -> BufferModel {
        self.0@
    }
}

impl FloatData for FloatArcRepr {
    open spec fn model(&self) -> BufferModel {
        self@
    }

    open spec fn owns_buffer(&self) -> bool {
        false
    }

    open spec fn holds_buffer(&self) -> bool {
        true
    }

    fn device(&self) -> (r: Device) {
        self.0.device()
    }

    fn len(&self) -> (r: usize) {
        self.0.len()
    }

    fn is_empty(&self) -> (r: bool) {
        self.0.is_empty()
    }

    fn as_slice(&self) -> (r: FloatSlice<'_>) {
        self.0.as_slice()
    }

    /// Succeeds only where no other holder of the buffer is alive.
    fn try_into_buffer(self) -> (r: Result<FloatBuffer, Self>) {
        match std::rc::Rc::try_unwrap(self.0) {
            Ok(buffer) => Ok(buffer),
            Err(shared) => Err(FloatArcRepr(shared)),
        }
    }

    fn try_into_arc_buffer(self) -> (r: Result<FloatArcBuffer, Self>) {
        Ok(self.0)
    }
}

impl FloatDataOwned for FloatArcRepr {
    fn from_buffer(buffer: FloatBuffer) -> (r: Self) {
        FloatArcRepr(std::rc::Rc::new(buffer))
    }
}

/// An exclusive borrow of a shared buffer.
pub struct FloatArcMutRepr<'a>(pub &'a mut FloatArcBuffer);

impl<'a> View for FloatArcMutRepr<'a> {
    type V = BufferModel;

    closed spec fn view(&self) -> BufferModel {
        (*self.0)@
    }
}

impl<'a> FloatData for FloatArcMutRepr<'a> {
    open spec fn model(&self) -> BufferModel {
        self@
    }

    open spec fn owns_buffer(&self) -> bool {
        false
    }

    open spec fn holds_buffer(&self) -> bool {
        false
    }

    fn device(&self) -> (r: Device) {
        self.0.device()
    }

    fn len(&self) -> (r: usize) {
        self.0.len()
    }

    fn is_empty(&self) -> (r: bool) {
        self.0.is_empty()
    }

    fn as_slice(&self) -> (r: FloatSlice<'_>) {
        self.0.as_slice()
    }

    fn try_into_buffer(self) -> (r: Result<FloatBuffer, Self>) {
        Err(self)
    }

    fn try_into_arc_buffer(self) -> (r: Result<FloatArcBuffer, Self>) {
        Err(self)
    }
}

/// Relies on `std::rc::Rc::make_mut`: it returns a mutable reference to the
/// shared value, first replacing the value, where other holders share it, by
/// a clone of it (`FloatBuffer::clone`, which keeps the contents), and the
/// reference count then holds what is written through the reference.
#[verifier::external_body]
fn rc_make_mut(rc: &mut FloatArcBuffer) -> (r: &mut FloatBuffer)
    ensures
        (*r)@ == (*old(rc))@,
        (*final(rc))@ == (*final(r))@,
{
    std::rc::Rc::make_mut(rc)
}

impl<'a> FloatDataMut for FloatArcMutRepr<'a> {
    /// Writes go to a buffer of this holder's own: the shared one where no
    /// other holder is alive, else a copy of it.
    fn as_slice_mut(&mut self) -> (r: FloatSliceMut<'_>) {
        rc_make_mut(&mut *self.0).as_slice_mut()
    }
}

/// A borrowed buffer, read only.
#[derive(Clone, Copy)]
pub struct FloatViewRepr<'a>(FloatSlice<'a>);

impl<'a> View for FloatViewRepr<'a> {
    type V = BufferModel;

    closed spec fn view(&self) -> BufferModel {
        self.0@
    }
}

impl<'a> FloatData for FloatViewRepr<'a> {
    open spec fn model(&self) -> BufferModel {
        self@
    }

    open spec fn owns_buffer(&self) -> bool {
        false
    }

    open spec fn holds_buffer(&self) -> bool {
        false
    }

    fn device(&self) -> (r: Device) {
        self.0.device()
    }

    fn len(&self) -> (r: usize) {
        self.0.len()
    }

    fn is_empty(&self) -> (r: bool) {
        self.0.is_empty()
    }

    fn as_slice(&self) -> (r: FloatSlice<'_>) {
        self.0.as_slice()
    }

    fn try_into_buffer(self) -> (r: Result<FloatBuffer, Self>) {
        Err(self)
    }

    fn try_into_arc_buffer(self) -> (r: Result<FloatArcBuffer, Self>) {
        Err(self)
    }
}

/// A mutably borrowed buffer.
pub struct FloatViewMutRepr<'a>(pub FloatSliceMut<'a>);

impl<'a> View for FloatViewMutRepr<'a> {
    type V = BufferModel;

    closed spec fn view(&self) -> BufferModel {
        self.0@
    }
}

impl<'a> FloatData for FloatViewMutRepr<'a> {
    open spec fn model(&self) -> BufferModel {
        self@
    }

    open spec fn owns_buffer(&self) -> bool {
        false
    }

    open spec fn holds_buffer(&self) -> bool {
        false
    }

    fn device(&self) -> (r: Device) {
        self.0.device()
    }

    fn len(&self) -> (r: usize) {
        self.0.len()
    }

    fn is_empty(&self) -> (r: bool) {
        self.0.is_empty()
    }

    fn as_slice(&self) -> (r: FloatSlice<'_>) {
        self.0.as_slice()
    }

    fn try_into_buffer(self) -> (r: Result<FloatBuffer, Self>) {
        Err(self)
    }

    fn try_into_arc_buffer(self) -> (r: Result<FloatArcBuffer, Self>) {
        Err(self)
    }
}

impl<'a> FloatDataMut for FloatViewMutRepr<'a> {
    fn as_slice_mut(&mut self) -> (r: FloatSliceMut<'_>) {
        self.0.as_slice_mut()
    }
}

/// A buffer that is either borrowed or owned.
pub struct FloatCowRepr<'a>(FloatCowBuffer<'a>);

impl<'a> FloatCowRepr<'a> {
    /// Whether the buffer is owned rather than borrowed.
    pub closed spec fn is_owned(&self) -> bool {
        self.0 is Owned
    }
}

impl<'a> View for FloatCowRepr<'a> {
    type V = BufferModel;

    closed spec fn view(&self) -> BufferModel {
        self.0@
    }
}

impl<'a> FloatData for FloatCowRepr<'a> {
    open spec fn model(&self) -> BufferModel {
        self@
    }

    open spec fn owns_buffer(&self) -> bool {
        self.is_owned()
    }

    open spec fn holds_buffer(&self) -> bool {
        self.is_owned()
    }

    fn device(&self) -> (r: Device) {
        self.0.device()
    }

    fn len(&self) -> (r: usize) {
        self.0.len()
    }

    fn is_empty(&self) -> (r: bool) {
        self.0.is_empty()
    }

    fn as_slice(&self) -> (r: FloatSlice<'_>) {
        self.0.as_slice()
    }

    fn try_into_buffer(self) -> (r: Result<FloatBuffer, Self>) {
        match self.0.try_unwrap() {
            Ok(buffer) => Ok(buffer),
            Err(cow) => Err(FloatCowRepr(cow)),
        }
    }

    fn try_into_arc_buffer(self) -> (r: Result<FloatArcBuffer, Self>) {
        match self.0.try_unwrap() {
            Ok(buffer) => Ok(std::rc::Rc::new(buffer)),
            Err(cow) => Err(FloatCowRepr(cow)),
        }
    }
}

impl<'a> FloatDataOwned for FloatCowRepr<'a> {
    fn from_buffer(buffer: FloatBuffer) -> (r: Self) {
        FloatCowRepr(FloatCowBuffer::Owned(buffer))
    }
}

} // verus!

verus! {

/// The elements of a tensor in row-major order, each of `size` bytes: element
/// `i` is the one at multi-index `unravel_row_major(i, dims)`, read through
/// `strides` from `bytes`.
pub open spec fn gather_bytes(bytes: Seq<u8>, dims: Seq<usize>, strides: Seq<isize>, size: nat) -> Seq<u8> {
    Seq::new(
        (product(dims) * size) as nat,
        |b: int|
            bytes[offset_of(unravel_row_major(b / size as int, dims), strides) * size + b
                % size as int],
    )
}

/// Copies the elements of a tensor laid out row-major with its axes reversed
/// into row-major order.
fn gather_reversed(bytes: &[u8], dims: &Vec<usize>, strides: &Vec<isize>, size: usize) -> (r: Vec<u8>)
    requires
        size >= 1,
        shape_fits(dims@),
        dims@.len() == strides@.len(),
        is_standard_layout(dims@.reverse(), strides@.reverse()),
        bytes@.len() == product(dims@) * size,
    ensures
        r@ == gather_bytes(bytes@, dims@, strides@, size as nat),
{
    let ghost g = gather_bytes(bytes@, dims@, strides@, size as nat);
    let n = match shape_size(dims) {
        Some(n) => n,
        None => {
            proof {
                assert(false);
            }
            return Vec::new();
        },
    };
    let blen = bytes.len();
    let mut out: Vec<u8> = Vec::new();
    if n == 0 {
        proof {
            assert(n * size == 0) by (nonlinear_arith)
                requires
                    n == 0,
            ;
            assert(out@ =~= g);
        }
        return out;
    }
    let ghost nd = dims@.len() as int;
    proof {
        assert(!has_zero(dims@)) by {
            if has_zero(dims@) {
                let j = choose|j: int| 0 <= j < nd && dims@[j] == 0;
                crate::dims::lemma_zero_axis(dims@, j);
            }
        }
        assert(dims@.subrange(0, nd) =~= dims@);
    }
    let rows = default_strides_of(dims);
    let mut i: usize = 0;
    while i < n
        invariant
            n == product(dims@),
            n > 0,
            size >= 1,
            !has_zero(dims@),
            shape_fits(dims@),
            nd == dims@.len() == strides@.len() == rows@.len(),
            dims@.subrange(0, nd) == dims@,
            rows@ == default_strides(dims@),
            is_standard_layout(dims@.reverse(), strides@.reverse()),
            bytes@.len() == product(dims@) * size,
            blen == bytes@.len(),
            g == gather_bytes(bytes@, dims@, strides@, size as nat),
            i <= n,
            out@.len() == i * size,
            forall|b: int| 0 <= b < out@.len() ==> #[trigger] out@[b] == g[b],
        decreases n - i,
    {
        let ghost u = unravel_row_major(i as int, dims@);
        let mut o: usize = 0;
        let mut k: usize = 0;
        proof {
            assert(dims@.subrange(0, 0) =~= Seq::<usize>::empty());
        }
        while k < dims.len()
            invariant
                n == product(dims@),
                !has_zero(dims@),
                shape_fits(dims@),
                dims@.subrange(0, nd) == dims@,
                nd == dims@.len() == strides@.len() == rows@.len(),
                rows@ == default_strides(dims@),
                is_standard_layout(dims@.reverse(), strides@.reverse()),
                u == unravel_row_major(i as int, dims@),
                i < n,
                k <= nd,
                o == offset_prefix(u, strides@, k as int),
                o < product(dims@.subrange(0, k as int)),
            decreases nd - k,
        {
            proof {
                lemma_reversed_layout_strides(dims@, strides@, k as int);
                lemma_suffix_bounded(dims@, k + 1);
                if k + 1 < nd {
                    lemma_reversed_layout_strides(dims@, strides@, k + 1);
                } else {
                    assert(dims@.subrange(0, k + 1) =~= dims@);
                }
            }
            let sk = rows[k] as usize;
            let d = dims[k];
            let idx = (i / sk) % d;
            let st = strides[k] as usize;
            proof {
                let p = product(dims@.subrange(0, k as int));
                assert(idx * st <= (d - 1) * p) by (nonlinear_arith)
                    requires
                        idx < d,
                        st == p,
                        d >= 1,
                ;
                assert((d - 1) * p + p == p * d) by (nonlinear_arith);
                assert(product(dims@.subrange(0, k + 1)) == p * d);
                assert(o + idx * st < p * d);
                assert(u[k as int] == idx);
            }
            o = o + idx * st;
            k += 1;
        }
        proof {
            assert(u.len() == nd);
            assert(o == offset_of(u, strides@));
            assert(o * size + size <= n * size) by (nonlinear_arith)
                requires
                    o < n,
            ;
            assert(n * size == blen);
        }
        let base = o * size;
        let mut j: usize = 0;
        while j < size
            invariant
                n == product(dims@),
                size >= 1,
                bytes@.len() == n * size,
                g == gather_bytes(bytes@, dims@, strides@, size as nat),
                i < n,
                blen == bytes@.len(),
                base + size <= n * size,
                base == offset_of(unravel_row_major(i as int, dims@), strides@) * size,
                j <= size,
                out@.len() == i * size + j,
                forall|b: int| 0 <= b < out@.len() ==> #[trigger] out@[b] == g[b],
            decreases size - j,
        {
            proof {
                vstd::arithmetic::div_mod::lemma_fundamental_div_mod_converse(
                    (i * size + j) as int,
                    size as int,
                    i as int,
                    j as int,
                );
                assert(i * size + j < n * size) by (nonlinear_arith)
                    requires
                        i < n,
                        j < size,
                ;
            }
            out.push(bytes[base + j]);
            j += 1;
        }
        proof {
            assert(i * size + size == (i + 1) * size) by (nonlinear_arith);
        }
        i += 1;
    }
    proof {
        assert(out@ =~= g);
    }
    out
}

/// A float tensor: dimensions, strides in elements, and data in one of the
/// ownership representations.
#[derive(Clone)]
pub struct FloatTensorBase<S: FloatData> {
    pub dim: Vec<usize>,
    pub strides: Vec<isize>,
    pub data: S,
}

/// A tensor that owns its buffer.
pub type FloatTensor = FloatTensorBase<FloatOwnedRepr>;

/// A tensor whose buffer is shared through a reference count.
pub type FloatArcTensor = FloatTensorBase<FloatArcRepr>;

/// A tensor that borrows a shared buffer exclusively.
pub type FloatArcTensorMut<'a> = FloatTensorBase<FloatArcMutRepr<'a>>;

/// A tensor that borrows its buffer.
pub type FloatTensorView<'a> = FloatTensorBase<FloatViewRepr<'a>>;

/// A tensor that borrows its buffer mutably.
pub type FloatTensorViewMut<'a> = FloatTensorBase<FloatViewMutRepr<'a>>;

/// A tensor whose buffer is either borrowed or owned.
pub type FloatCowTensor<'a> = FloatTensorBase<FloatCowRepr<'a>>;

/// The buffer `m` moved to `device`, elements unchanged.
pub open spec fn on_device(m: BufferModel, device: Device) -> BufferModel {
    BufferModel { device, ..m }
}

/// Whether a tensor with layout `dims`/`strides` can take the shape `new`.
pub open spec fn reshape_ok(dims: Seq<usize>, strides: Seq<isize>, new: Seq<usize>) -> bool {
    is_standard_layout(dims, strides) && shape_fits(new) && product(new) == product(dims)
}

proof fn lemma_size_exceeds(p: int, size: int)
    requires
        p > isize::MAX,
        size >= 1,
    ensures
        p * size > isize::MAX,
{
    assert(p * size >= p) by (nonlinear_arith)
        requires
            p > 0,
            size >= 1,
    ;
}

impl<S: FloatData> FloatTensorBase<S> {
    /// The dimensions.
    pub closed spec fn shape_spec(&self) -> Seq<usize> {
        self.dim@
    }

    /// The strides, in elements.
    pub closed spec fn strides_spec(&self) -> Seq<isize> {
        self.strides@
    }

    /// The data representation.
    pub closed spec fn data_spec(&self) -> S {
        self.data
    }

    /// What the data holds.
    pub open spec fn model(&self) -> BufferModel {
        self.data_spec().model()
    }

    /// One stride per axis, and exactly as many elements as the dimensions give.
    pub open spec fn wf(&self) -> bool {
        &&& self.strides_spec().len() == self.shape_spec().len()
        &&& shape_fits(self.shape_spec())
        &&& layout_ok(self.shape_spec(), self.strides_spec())
        &&& self.model().bytes.len() == product(self.shape_spec())
            * self.model().float_type.size_spec()
    }

    /// Whether moving the tensor to `device` needs a transfer.
    pub open spec fn needs_transfer(&self, device: Device) -> bool {
        self.model().device != device
    }

    /// The device that holds the data.
    pub fn device(&self) -> (r: Device)
        ensures
            r == self.model().device,
    {
        self.data.device()
    }

    /// The dimensions.
    pub fn dim(&self) -> (r: Vec<usize>)
        ensures
            r@ == self.shape_spec(),
    {
        self.dim.clone()
    }

    /// The dimensions.
    pub fn raw_dim(&self) -> (r: Vec<usize>)
        ensures
            r@ == self.shape_spec(),
    {
        self.dim.clone()
    }

    /// The dimensions as a slice.
    pub fn shape(&self) -> (r: &[usize])
        ensures
            r@ == self.shape_spec(),
    {
        self.dim.as_slice()
    }

    /// The strides as a slice.
    pub fn strides(&self) -> (r: &[isize])
        ensures
            r@ == self.strides_spec(),
    {
        self.strides.as_slice()
    }

    /// The number of elements.
    pub fn len(&self) -> (r: usize)
        requires
            self.wf(),
        ensures
            r == product(self.shape_spec()),
    {
        proof {
            let p = product(self.shape_spec());
            let size = self.model().float_type.size_spec() as int;
            assert(p * size / size == p) by (nonlinear_arith)
                requires
                    size > 0,
            ;
        }
        self.data.len()
    }

    /// Whether the tensor has no elements.
    pub fn is_empty(&self) -> (r: bool)
        requires
            self.wf(),
        ensures
            r == (product(self.shape_spec()) == 0),
    {
        proof {
            let p = product(self.shape_spec());
            let size = self.model().float_type.size_spec() as int;
            assert(p * size == 0 <==> p == 0) by (nonlinear_arith)
                requires
                    size > 0,
                    p >= 0,
            ;
            crate::dims::lemma_product_nonneg(self.shape_spec());
        }
        self.data.is_empty()
    }

    /// The number of axes.
    pub fn ndim(&self) -> (r: usize)
        ensures
            r == self.shape_spec().len(),
    {
        self.dim.len()
    }

    /// The same tensor, checked to have `ndim` axes.
    ///
    /// Fails with a shape error where the number of axes differs.
    pub fn into_dimensionality(self, ndim: usize) -> (r: Result<Self, Error>)
        ensures
            match r {
                Ok(t) => self.shape_spec().len() == ndim && t == self,
                Err(e) => self.shape_spec().len() != ndim && e == Error::Shape,
            },
    {
        if self.dim.len() == ndim {
            Ok(self)
        } else {
            Err(Error::Shape)
        }
    }

    /// The same tensor with its number of axes known only at run time, which
    /// in this library it always is.
    pub fn into_dyn(self) -> (r: Self)
        ensures
            r == self,
    {
        self
    }

    /// The tensor with dimensions `shape`, over the same data.
    ///
    /// Fails with a shape error unless the tensor is in standard layout and
    /// `shape` has as many elements.
    pub fn into_shape(self, shape: Vec<usize>) -> (r: Result<Self, Error>)
        requires
            self.wf(),
        ensures
            match r {
                Ok(t) => {
                    &&& reshape_ok(self.shape_spec(), self.strides_spec(), shape@)
                    &&& t.shape_spec() == shape@
                    &&& t.strides_spec() == default_strides(shape@)
                    &&& t.data_spec() == self.data_spec()
                    &&& t.wf()
                },
                Err(e) => !reshape_ok(self.shape_spec(), self.strides_spec(), shape@) && e
                    == Error::Shape,
            },
    {
        if !standard_layout(&self.dim, &self.strides) {
            return Err(Error::Shape);
        }
        let old_size = shape_size(&self.dim);
        match shape_size(&shape) {
            Some(n) => {
                match old_size {
                    Some(m) => {
                        if n != m {
                            return Err(Error::Shape);
                        }
                    },
                    None => {
                        return Err(Error::Shape);
                    },
                }
            },
            None => {
                return Err(Error::Shape);
            },
        }
        let strides = default_strides_of(&shape);
        Ok(FloatTensorBase { dim: shape, strides, data: self.data })
    }

    /// Borrows the tensor as a view.
    pub fn view(&self) -> (r: FloatTensorView<'_>)
        ensures
            r.shape_spec() == self.shape_spec(),
            r.strides_spec() == self.strides_spec(),
            r.model() == self.model(),
            self.wf() ==> r.wf(),
    {
        FloatTensorBase {
            dim: self.dim.clone(),
            strides: self.strides.clone(),
            data: FloatViewRepr(self.data.as_slice()),
        }
    }

    /// The tensor with its axes in reverse order (a transpose, without a copy).
    pub fn reversed_axes(self) -> (r: Self)
        ensures
            r.shape_spec() == self.shape_spec().reverse(),
            r.strides_spec() == self.strides_spec().reverse(),
            r.data_spec() == self.data_spec(),
            self.wf() ==> r.wf(),
    {
        proof {
            lemma_product_reverse(self.shape_spec());
            lemma_reverse_reverse(self.shape_spec());
            lemma_reverse_reverse(self.strides_spec());
        }
        let dim = reversed(&self.dim);
        let strides = reversed(&self.strides);
        FloatTensorBase { dim, strides, data: self.data }
    }

    /// A view with the axes in reverse order.
    pub fn t(&self) -> (r: FloatTensorView<'_>)
        ensures
            r.shape_spec() == self.shape_spec().reverse(),
            r.strides_spec() == self.strides_spec().reverse(),
            r.model() == self.model(),
            self.wf() ==> r.wf(),
    {
        self.view().reversed_axes()
    }

    /// The elements in one contiguous run, in row-major order: borrowed where
    /// the tensor is in standard layout, else gathered through the strides
    /// into a new buffer on the same device.
    pub fn to_slice(&self) -> (r: Result<FloatCowBuffer<'_>, Error>)
        requires
            self.wf(),
        ensures
            r is Ok,
            r matches Ok(c) ==> if is_standard_layout(self.shape_spec(), self.strides_spec()) {
                c is Borrowed && c@ == self.model()
            } else {
                &&& c is Owned
                &&& c@ == (BufferModel {
                    bytes: gather_bytes(
                        self.model().bytes,
                        self.shape_spec(),
                        self.strides_spec(),
                        self.model().float_type.size_spec(),
                    ),
                    ..self.model()
                })
            },
    {
        let slice = self.data.as_slice();
        if standard_layout(&self.dim, &self.strides) {
            Ok(FloatCowBuffer::Borrowed(slice))
        } else {
            let float_type = slice.float_type();
            let bytes = gather_reversed(slice.as_bytes(), &self.dim, &self.strides, float_type.size());
            Ok(FloatCowBuffer::Owned(FloatBuffer::from_parts(float_type, slice.device(), bytes)))
        }
    }

    /// The bytes of the buffer, checked to hold elements of `float_type`.
    ///
    /// Fails with a type mismatch where the tensor holds another type.
    pub fn as_typed_bytes(&self, float_type: FloatType) -> (r: Result<&[u8], Error>)
        ensures
            match r {
                Ok(b) => self.model().float_type == float_type && b@ == self.model().bytes,
                Err(e) => self.model().float_type != float_type && e == Error::TypeMismatch,
            },
    {
        let slice = self.data.as_slice();
        if slice.float_type() != float_type {
            return Err(Error::TypeMismatch);
        }
        Ok(slice.as_bytes())
    }

    /// Borrows the buffer as it is laid out, whatever the strides.
    pub fn as_raw_slice(&self) -> (r: FloatSlice<'_>)
        ensures
            r@ == self.model(),
    {
        self.data.as_slice()
    }

    /// The tensor on `device`: where it is there already, converted to owned
    /// data without a transfer; else copied to `device`. The copy blocks until
    /// it is complete.
    pub fn into_device(self, device: Device) -> (r: Result<FloatTensor, Error>)
        ensures
            r is Ok,
            r matches Ok(t) ==> {
                &&& t.shape_spec() == self.shape_spec()
                &&& t.strides_spec() == self.strides_spec()
                &&& t.model() == on_device(self.model(), device)
                &&& !self.needs_transfer(device) ==> t.model() == self.model()
                &&& self.wf() ==> t.wf()
            },
    {
        if device == self.data.device() {
            proof {
                assert(on_device(self.model(), device) == self.model());
            }
            self.into_owned()
        } else {
            let buffer = self.data.as_slice().to_device(device);
            Ok(FloatTensorBase { dim: self.dim, strides: self.strides, data: FloatOwnedRepr(buffer) })
        }
    }

    /// The tensor with owned data, copied unless it can be had without a copy.
    pub fn into_owned(self) -> (r: Result<FloatTensor, Error>)
        ensures
            r is Ok,
            r matches Ok(t) ==> {
                &&& t.shape_spec() == self.shape_spec()
                &&& t.strides_spec() == self.strides_spec()
                &&& t.model() == self.model()
                &&& self.wf() ==> t.wf()
            },
    {
        Ok(FloatTensorBase { dim: self.dim, strides: self.strides, data: into_owned_repr(self.data) })
    }

    /// The tensor with shared data, copied unless it can be had without a copy.
    pub fn into_shared(self) -> (r: Result<FloatArcTensor, Error>)
        ensures
            r is Ok,
            r matches Ok(t) ==> {
                &&& t.shape_spec() == self.shape_spec()
                &&& t.strides_spec() == self.strides_spec()
                &&& t.model() == self.model()
                &&& self.wf() ==> t.wf()
            },
    {
        Ok(
            FloatTensorBase {
                dim: self.dim,
                strides: self.strides,
                data: into_shared_repr(self.data),
            },
        )
    }

    /// The buffer, where the data gives it up without a copy; else the tensor unchanged.
    pub fn try_into_buffer(self) -> (r: Result<FloatBuffer, Self>)
        ensures
            match r {
                Ok(b) => self.data_spec().holds_buffer() && b@ == self.model(),
                Err(t) => !self.data_spec().owns_buffer() && t == self,
            },
    {
        let FloatTensorBase { dim, strides, data } = self;
        match data.try_into_buffer() {
            Ok(buffer) => Ok(buffer),
            Err(data) => Err(FloatTensorBase { dim, strides, data }),
        }
    }
}

impl<S: FloatDataMut> FloatTensorBase<S> {
    /// Borrows the tensor as a mutable view; the tensor ends with what the
    /// view holds last.
    pub fn view_mut(&mut self) -> (r: FloatTensorViewMut<'_>)
        ensures
            r.shape_spec() == old(self).shape_spec(),
            r.strides_spec() == old(self).strides_spec(),
            r.model() == old(self).model(),
            old(self).wf() ==> r.wf(),
            final(self).shape_spec() == old(self).shape_spec(),
            final(self).strides_spec() == old(self).strides_spec(),
            final(self).model() == (BufferModel { bytes: final(r.data.0.data)@, ..old(self).model() }),
    {
        FloatTensorBase {
            dim: self.dim.clone(),
            strides: self.strides.clone(),
            data: FloatViewMutRepr(self.data.as_slice_mut()),
        }
    }

    /// Borrows the buffer mutably as it is laid out, whatever the strides; the
    /// tensor ends with what the borrow holds last.
    pub fn as_raw_slice_mut(&mut self) -> (r: FloatSliceMut<'_>)
        ensures
            r@ == old(self).model(),
            final(self).shape_spec() == old(self).shape_spec(),
            final(self).strides_spec() == old(self).strides_spec(),
            final(self).model() == (BufferModel { bytes: final(r.data)@, ..old(self).model() }),
    {
        self.data.as_slice_mut()
    }
}

impl FloatTensorBase<FloatArcRepr> {
    /// Borrows the shared buffer exclusively: no other borrow of this tensor
    /// is alive while the result is, and the tensor ends with what the borrow
    /// holds last.
    pub fn as_arc_mut(&mut self) -> (r: FloatArcTensorMut<'_>)
        ensures
            r.shape_spec() == old(self).shape_spec(),
            r.strides_spec() == old(self).strides_spec(),
            r.model() == old(self).model(),
            old(self).wf() ==> r.wf(),
            final(self).shape_spec() == old(self).shape_spec(),
            final(self).strides_spec() == old(self).strides_spec(),
            final(self).model() == (*final(r.data.0))@,
    {
        FloatTensorBase {
            dim: self.dim.clone(),
            strides: self.strides.clone(),
            data: FloatArcMutRepr(&mut self.data.0),
        }
    }
}

impl<S: FloatDataOwned> FloatTensorBase<S> {
    /// A tensor of `float_type` on `device` with dimensions `shape`, all bytes zero.
    ///
    /// Fails with a device error where the data does not fit in memory.
    pub fn zeros(float_type: FloatType, device: Device, shape: Vec<usize>) -> (r: Result<
        Self,
        Error,
    >)
        ensures
            match r {
                Ok(t) => {
                    &&& fits_in_memory(product(shape@) * float_type.size_spec())
                    &&& t.wf()
                    &&& t.shape_spec() == shape@
                    &&& t.strides_spec() == default_strides(shape@)
                    &&& t.model() == BufferModel {
                        float_type,
                        device,
                        bytes: Seq::new(
                            (product(shape@) * float_type.size_spec()) as nat,
                            |i: int| 0u8,
                        ),
                    }
                },
                Err(e) => !fits_in_memory(product(shape@) * float_type.size_spec()) && e
                    == Error::Device(DeviceError::AllocationTooLarge),
            },
    {
        let n = match shape_size(&shape) {
            Some(n) => n,
            None => {
                proof {
                    lemma_size_exceeds(product(shape@), float_type.size_spec() as int);
                }
                return Err(Error::Device(DeviceError::AllocationTooLarge));
            },
        };
        let buffer = match FloatBuffer::zeros(float_type, device, n) {
            Ok(b) => b,
            Err(e) => {
                return Err(e);
            },
        };
        let strides = default_strides_of(&shape);
        Ok(FloatTensorBase { dim: shape, strides, data: S::from_buffer(buffer) })
    }

    /// A tensor of `float_type` on `device` with dimensions `shape`, whose
    /// elements are not specified: the caller writes each before reading it.
    ///
    /// Fails with a device error where the data does not fit in memory.
    pub fn alloc_uninit(float_type: FloatType, device: Device, shape: Vec<usize>) -> (r: Result<
        Self,
        Error,
    >)
        ensures
            match r {
                Ok(t) => {
                    &&& fits_in_memory(product(shape@) * float_type.size_spec())
                    &&& t.wf()
                    &&& t.shape_spec() == shape@
                    &&& t.strides_spec() == default_strides(shape@)
                    &&& t.model().float_type == float_type
                    &&& t.model().device == device
                },
                Err(e) => !fits_in_memory(product(shape@) * float_type.size_spec()) && e
                    == Error::Device(DeviceError::AllocationTooLarge),
            },
    {
        let n = match shape_size(&shape) {
            Some(n) => n,
            None => {
                proof {
                    lemma_size_exceeds(product(shape@), float_type.size_spec() as int);
                }
                return Err(Error::Device(DeviceError::AllocationTooLarge));
            },
        };
        let buffer = match FloatBuffer::alloc_uninit(float_type, device, n) {
            Ok(b) => b,
            Err(e) => {
                return Err(e);
            },
        };
        let strides = default_strides_of(&shape);
        Ok(FloatTensorBase { dim: shape, strides, data: S::from_buffer(buffer) })
    }

    /// A tensor on `device` with dimensions `shape`, every element `elem`.
    ///
    /// Fails with a device error where the data does not fit in memory.
    pub fn from_elem(device: Device, shape: Vec<usize>, elem: FloatElem) -> (r: Result<
        Self,
        Error,
    >)
        ensures
            match r {
                Ok(t) => {
                    &&& fits_in_memory(product(shape@) * elem.float_type_spec().size_spec())
                    &&& t.wf()
                    &&& t.shape_spec() == shape@
                    &&& t.strides_spec() == default_strides(shape@)
                    &&& t.model() == BufferModel {
                        float_type: elem.float_type_spec(),
                        device,
                        bytes: crate::float::repeat(elem.bytes_spec(), product(shape@) as nat),
                    }
                },
                Err(e) => !fits_in_memory(product(shape@) * elem.float_type_spec().size_spec())
                    && e == Error::Device(DeviceError::AllocationTooLarge),
            },
    {
        let n = match shape_size(&shape) {
            Some(n) => n,
            None => {
                proof {
                    lemma_size_exceeds(product(shape@), elem.float_type_spec().size_spec() as int);
                }
                return Err(Error::Device(DeviceError::AllocationTooLarge));
            },
        };
        let buffer = match FloatBuffer::from_elem(device, n, elem) {
            Ok(b) => b,
            Err(e) => {
                return Err(e);
            },
        };
        proof {
            crate::float::lemma_repeat_len(elem.bytes_spec(), n as nat);
            crate::float::lemma_le_bytes_len(elem.bits(), elem.float_type_spec().size_spec());
        }
        let strides = default_strides_of(&shape);
        Ok(FloatTensorBase { dim: shape, strides, data: S::from_buffer(buffer) })
    }

    /// A one-axis tensor over the elements of `buffer`.
    pub fn from_buffer(buffer: FloatBuffer) -> (r: Self)
        requires
            buffer@.wf(),
        ensures
            r.wf(),
            r.shape_spec() == seq![buffer@.len() as usize],
            r.strides_spec() == default_strides(seq![buffer@.len() as usize]),
            r.model() == buffer@,
    {
        let n = buffer.len();
        let mut dim: Vec<usize> = Vec::new();
        dim.push(n);
        proof {
            let size = buffer@.float_type.size_spec() as int;
            let b = buffer@.bytes.len() as int;
            assert(b / size * size == b) by (nonlinear_arith)
                requires
                    b % size == 0,
                    size > 0,
            ;
            assert(b / size <= b) by (nonlinear_arith)
                requires
                    b >= 0,
                    size > 0,
            ;
            let t = dim@.subrange(1, 1);
            assert(t.len() == 0);
            assert(product(dim@) == n * product(t));
        }
        let strides = default_strides_of(&dim);
        FloatTensorBase { dim, strides, data: S::from_buffer(buffer) }
    }
}

} // verus!

verus! {

/// Reshaping a standard-layout tensor to a shape with as many elements, then
/// back to its own dimensions, succeeds both times and gives back the
/// starting dimensions, strides and data.
pub proof fn lemma_into_shape_round_trip<S: FloatData>(t: FloatTensorBase<S>, shape: Seq<usize>)
    requires
        t.wf(),
        is_standard_layout(t.shape_spec(), t.strides_spec()),
        shape_fits(shape),
        product(shape) == product(t.shape_spec()),
    ensures
        reshape_ok(t.shape_spec(), t.strides_spec(), shape),
        reshape_ok(shape, default_strides(shape), t.shape_spec()),
        default_strides(t.shape_spec()) == t.strides_spec(),
{
}

proof fn lemma_reverse_reverse<A>(s: Seq<A>)
    ensures
        s.reverse().reverse() == s,
{
    assert(s.reverse().reverse() =~= s);
}

/// Reversing the axes twice gives back the dimensions and the strides.
pub proof fn lemma_reversed_axes_twice<S: FloatData>(t: FloatTensorBase<S>)
    ensures
        t.shape_spec().reverse().reverse() == t.shape_spec(),
        t.strides_spec().reverse().reverse() == t.strides_spec(),
{
    lemma_reverse_reverse(t.shape_spec());
    lemma_reverse_reverse(t.strides_spec());
}

/// An owned tensor owns its buffer: `try_into_buffer` on it succeeds, so a
/// second conversion to owned data moves the buffer, and by the contract of
/// `into_owned` keeps the dimensions, strides and elements of the first.
pub proof fn lemma_owned_tensor_owns_buffer(t: FloatTensor)
    ensures
        t.data_spec().owns_buffer(),
        t.data_spec().holds_buffer(),
{
}

/// A tensor that `into_device(device)` returned is on `device`: a second
/// `into_device(device)` needs no transfer, and by the contract of
/// `into_device` keeps every element of the first.
pub proof fn lemma_into_device_idempotent(m: BufferModel, device: Device, t: FloatTensor)
    requires
        t.model() == on_device(m, device),
    ensures
        !t.needs_transfer(device),
        on_device(t.model(), device) == t.model(),
{
}

} // verus!
