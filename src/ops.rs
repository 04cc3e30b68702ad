//! In-place addition, and the output shape of a two-dimensional convolution.

use vstd::prelude::*;

use crate::error::Error;
use crate::tensor::{add_elems, Tensor, TensorModel};

verus! {

/// Adds `rhs` into a value in place.
pub trait AddAssign<R>: View + Sized {
    /// Whether `rhs` can be added to a value that holds `v`.
    spec fn can_add(v: Self::V, rhs: R) -> bool;

    /// What a value that holds `v` holds after `rhs` is added to it.
    spec fn added(v: Self::V, rhs: R) -> Self::V;

    /// Adds `rhs` into `self`; fails, leaving `self` unchanged, where the two
    /// cannot be added.
    fn add_assign(&mut self, rhs: R) -> (r: Result<(), Error>)
        ensures
            Self::can_add(old(self)@, rhs) ==> r is Ok && final(self)@ == Self::added(
                old(self)@,
                rhs,
            ),
            !Self::can_add(old(self)@, rhs) ==> r is Err && final(self)@ == old(self)@,
    ;
}

impl<'a> AddAssign<&'a Tensor> for Tensor {
    /// Tensors of the same dimensions add elementwise.
    open spec fn can_add(v: TensorModel, rhs: &'a Tensor) -> bool {
        v.shape == rhs@.shape && v.data.len() == rhs@.data.len()
    }

    open spec fn added(v: TensorModel, rhs: &'a Tensor) -> TensorModel {
        TensorModel { shape: v.shape, data: add_elems(v.data, rhs@.data) }
    }

    /// Fails with a shape error where the dimensions differ.
    fn add_assign(&mut self, rhs: &'a Tensor) -> (r: Result<(), Error>) {
        if !shapes_equal(self.shape(), rhs.shape()) || self.len() != rhs.len() {
            return Err(Error::Shape);
        }
        self.add_elems_in_place(rhs);
        Ok(())
    }
}

/// Whether two shapes are equal.
pub fn shapes_equal(a: &[usize], b: &[usize]) -> (r: bool)
    ensures
        r == (a@ == b@),
{
    if a.len() != b.len() {
        return false;
    }
    let mut i: usize = 0;
    while i < a.len()
        invariant
            i <= a@.len() == b@.len(),
            forall|j: int| 0 <= j < i ==> a@[j] == b@[j],
        decreases a@.len() - i,
    {
        if a[i] != b[i] {
            return false;
        }
        i += 1;
    }
    proof {
        assert(a@ =~= b@);
    }
    true
}

/// The options of a two-dimensional convolution computed as an im2col product.
#[derive(Clone, Copy, Debug)]
pub struct Im2ColConv2Options {
    pub filter: [usize; 2],
    pub padding: [usize; 2],
    pub stride: [usize; 2],
    pub dilation: [usize; 2],
}

impl Default for Im2ColConv2Options {
    /// No filter and no padding, stride and dilation one.
    fn default() -> (r: Self)
        ensures
            r.filter@ == seq![0usize, 0],
            r.padding@ == seq![0usize, 0],
            r.stride@ == seq![1usize, 1],
            r.dilation@ == seq![1usize, 1],
    {
        Im2ColConv2Options { filter: [0, 0], padding: [0, 0], stride: [1, 1], dilation: [1, 1] }
    }
}

/// Whether an axis of length `a` admits the filter `f` with padding `p`,
/// stride `s` and dilation `d`: the padded axis holds the dilated filter,
/// and nothing overflows.
pub open spec fn conv_axis_ok(a: int, f: int, p: int, s: int, d: int) -> bool {
    &&& s > 0
    &&& f >= 1
    &&& a + 2 * p <= usize::MAX
    &&& d * (f - 1) + 1 <= a + 2 * p
}

/// The output length of the axis.
pub open spec fn conv_axis_len(a: int, f: int, p: int, s: int, d: int) -> int {
    (a + 2 * p - d * (f - 1) - 1) / s + 1
}

fn conv_axis(a: usize, f: usize, p: usize, s: usize, d: usize) -> (r: usize)
    requires
        conv_axis_ok(a as int, f as int, p as int, s as int, d as int),
    ensures
        r == conv_axis_len(a as int, f as int, p as int, s as int, d as int),
{
    let span = a + 2 * p;
    proof {
        assert(0 <= d * (f - 1) <= span) by (nonlinear_arith)
            requires
                d * (f - 1) + 1 <= span,
                d >= 0,
                f >= 1,
        ;
        let q = (span - d * (f - 1) - 1) as int;
        assert(0 <= q / (s as int) <= q) by (nonlinear_arith)
            requires
                q >= 0,
                s > 0,
        ;
    }
    (span - d * (f - 1) - 1) / s + 1
}

impl Im2ColConv2Options {
    /// Whether both axes of `input_shape` admit these options.
    pub open spec fn admits(&self, input_shape: [usize; 2]) -> bool {
        forall|i: int|
            0 <= i < 2 ==> conv_axis_ok(
                input_shape@[i] as int,
                self.filter@[i] as int,
                self.padding@[i] as int,
                self.stride@[i] as int,
                self.dilation@[i] as int,
            )
    }

    /// The shape of the convolution's output for an input of `input_shape`.
    pub fn output_shape(&self, input_shape: [usize; 2]) -> (r: [usize; 2])
        requires
            self.admits(input_shape),
        ensures
            forall|i: int|
                0 <= i < 2 ==> r@[i] == conv_axis_len(
                    input_shape@[i] as int,
                    self.filter@[i] as int,
                    self.padding@[i] as int,
                    self.stride@[i] as int,
                    self.dilation@[i] as int,
                ),
    {
        proof {
            assert(conv_axis_ok(
                input_shape@[0] as int,
                self.filter@[0] as int,
                self.padding@[0] as int,
                self.stride@[0] as int,
                self.dilation@[0] as int,
            ));
            assert(conv_axis_ok(
                input_shape@[1] as int,
                self.filter@[1] as int,
                self.padding@[1] as int,
                self.stride@[1] as int,
                self.dilation@[1] as int,
            ));
        }
        let h = conv_axis(
            input_shape[0],
            self.filter[0],
            self.padding[0],
            self.stride[0],
            self.dilation[0],
        );
        let w = conv_axis(
            input_shape[1],
            self.filter[1],
            self.padding[1],
            self.stride[1],
            self.dilation[1],
        );
        let r = [h, w];
        proof {
            assert forall|i: int| 0 <= i < 2 implies r@[i] == conv_axis_len(
                input_shape@[i] as int,
                self.filter@[i] as int,
                self.padding@[i] as int,
                self.stride@[i] as int,
                self.dilation@[i] as int,
            ) by {
                if i == 0 {
                } else {
                }
            }
        }
        r
    }
}

} // verus!
