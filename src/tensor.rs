//! Tensors of 64-bit integers in standard layout, with the arithmetic that
//! the autograd engine uses. Arithmetic wraps on overflow, as two's-complement
//! machine integers do.

use vstd::prelude::*;

use vstd::arithmetic::div_mod::lemma_fundamental_div_mod_converse;

use crate::dims::{product, shape_fits, shape_size};
use crate::error::{DeviceError, Error};

verus! {

/// What a tensor holds: its dimensions and its elements in row-major order.
pub struct TensorModel {
    pub shape: Seq<usize>,
    pub data: Seq<i64>,
}

impl TensorModel {
    /// As many elements as the dimensions give, within the machine's limits.
    pub open spec fn wf(self) -> bool {
        shape_fits(self.shape) && product(self.shape) == self.data.len()
    }
}

/// Elementwise sum, wrapping.
pub open spec fn add_elems(a: Seq<i64>, b: Seq<i64>) -> Seq<i64> {
    Seq::new(a.len(), |i: int| a[i].wrapping_add(b[i]))
}

/// The sum of all elements, wrapping.
pub open spec fn sum_elems(a: Seq<i64>) -> i64
    decreases a.len(),
{
    if a.len() == 0 {
        0
    } else {
        sum_elems(a.drop_last()).wrapping_add(a.last())
    }
}

/// `n` copies of `v`.
pub open spec fn fill(n: nat, v: i64) -> Seq<i64> {
    Seq::new(n, |i: int| v)
}

/// Entry (i, p) of a `rows`×`cols` matrix held row-major in `a`, or, with
/// `trans`, held as its `cols`×`rows` transpose.
pub open spec fn mat_at(a: Seq<i64>, trans: bool, rows: int, cols: int, i: int, p: int) -> i64 {
    if trans {
        a[p * rows + i]
    } else {
        a[i * cols + p]
    }
}

/// The first `p` terms of the product of row `i` of the `m`×`kk` matrix A with
/// column `j` of the `kk`×`n` matrix B, summed with wrapping.
pub open spec fn dot_prefix(
    a: Seq<i64>,
    ta: bool,
    b: Seq<i64>,
    tb: bool,
    m: int,
    kk: int,
    n: int,
    i: int,
    j: int,
    p: int,
) -> i64
    decreases p,
{
    if p <= 0 {
        0
    } else {
        dot_prefix(a, ta, b, tb, m, kk, n, i, j, p - 1).wrapping_add(
            mat_at(a, ta, m, kk, i, p - 1).wrapping_mul(mat_at(b, tb, kk, n, p - 1, j)),
        )
    }
}

/// The `m`×`n` product A·B, row-major.
pub open spec fn matmul_spec(
    a: Seq<i64>,
    ta: bool,
    b: Seq<i64>,
    tb: bool,
    m: nat,
    kk: nat,
    n: nat,
) -> Seq<i64> {
    Seq::new(
        m * n,
        |t: int| dot_prefix(a, ta, b, tb, m as int, kk as int, n as int, t / n as int, t % n as int, kk as int),
    )
}

proof fn lemma_flat_index(i: int, p: int, rows: int, cols: int)
    requires
        0 <= i < rows,
        0 <= p < cols,
    ensures
        0 <= i * cols + p < rows * cols,
        0 <= p * rows + i < rows * cols,
{
    assert(0 <= i * cols + p < rows * cols) by (nonlinear_arith)
        requires
            0 <= i < rows,
            0 <= p < cols,
    ;
    assert(0 <= p * rows + i < rows * cols) by (nonlinear_arith)
        requires
            0 <= i < rows,
            0 <= p < cols,
    ;
}

fn mat_get(a: &[i64], trans: bool, rows: usize, cols: usize, i: usize, p: usize) -> (r: i64)
    requires
        a@.len() == rows * cols,
        i < rows,
        p < cols,
    ensures
        r == mat_at(a@, trans, rows as int, cols as int, i as int, p as int),
{
    let len = a.len();
    proof {
        lemma_flat_index(i as int, p as int, rows as int, cols as int);
        assert(i * cols + p < len && p * rows + i < len);
    }
    if trans {
        a[p * rows + i]
    } else {
        a[i * cols + p]
    }
}

/// The `m`×`n` product of A (`m`×`kk`, or its transpose held with `ta`) and
/// B (`kk`×`n`, or its transpose held with `tb`).
pub fn matmul(a: &[i64], ta: bool, b: &[i64], tb: bool, m: usize, kk: usize, n: usize) -> (r:
    Vec<i64>)
    requires
        a@.len() == m * kk,
        b@.len() == kk * n,
        m * n <= usize::MAX,
    ensures
        r@ == matmul_spec(a@, ta, b@, tb, m as nat, kk as nat, n as nat),
{
    let mut out: Vec<i64> = Vec::new();
    let mut i: usize = 0;
    while i < m
        invariant
            i <= m,
            a@.len() == m * kk,
            b@.len() == kk * n,
            m * n <= usize::MAX,
            out@.len() == i * n,
            forall|t: int|
                #![trigger out@[t]]
                0 <= t < out@.len() ==> out@[t] == dot_prefix(
                    a@,
                    ta,
                    b@,
                    tb,
                    m as int,
                    kk as int,
                    n as int,
                    t / n as int,
                    t % n as int,
                    kk as int,
                ),
        decreases m - i,
    {
        let mut j: usize = 0;
        while j < n
            invariant
                i < m,
                j <= n,
                a@.len() == m * kk,
                b@.len() == kk * n,
                m * n <= usize::MAX,
                out@.len() == i * n + j,
                forall|t: int|
                    #![trigger out@[t]]
                    0 <= t < out@.len() ==> out@[t] == dot_prefix(
                        a@,
                        ta,
                        b@,
                        tb,
                        m as int,
                        kk as int,
                        n as int,
                        t / n as int,
                        t % n as int,
                        kk as int,
                    ),
            decreases n - j,
        {
            let mut s: i64 = 0;
            let mut p: usize = 0;
            while p < kk
                invariant
                    i < m,
                    j < n,
                    p <= kk,
                    a@.len() == m * kk,
                    b@.len() == kk * n,
                    s == dot_prefix(
                        a@,
                        ta,
                        b@,
                        tb,
                        m as int,
                        kk as int,
                        n as int,
                        i as int,
                        j as int,
                        p as int,
                    ),
                decreases kk - p,
            {
                let x = mat_get(a, ta, m, kk, i, p);
                let y = mat_get(b, tb, kk, n, p, j);
                s = s.wrapping_add(x.wrapping_mul(y));
                p += 1;
            }
            proof {
                lemma_fundamental_div_mod_converse((i * n + j) as int, n as int, i as int, j as int);
            }
            out.push(s);
            j += 1;
        }
        proof {
            assert(i * n + n == (i + 1) * n) by (nonlinear_arith);
        }
        i += 1;
    }
    proof {
        assert(out@ =~= matmul_spec(a@, ta, b@, tb, m as nat, kk as nat, n as nat));
    }
    out
}

/// Elementwise sum of two vectors of one length, wrapping.
pub fn add_vec(a: &[i64], b: &[i64]) -> (r: Vec<i64>)
    requires
        a@.len() == b@.len(),
    ensures
        r@ == add_elems(a@, b@),
{
    let mut out: Vec<i64> = Vec::new();
    let mut i: usize = 0;
    while i < a.len()
        invariant
            i <= a@.len() == b@.len(),
            out@ == add_elems(a@, b@).subrange(0, i as int),
        decreases a@.len() - i,
    {
        out.push(a[i].wrapping_add(b[i]));
        i += 1;
        proof {
            assert(out@ =~= add_elems(a@, b@).subrange(0, i as int));
        }
    }
    proof {
        assert(out@ =~= add_elems(a@, b@));
    }
    out
}

/// The sum of all elements, wrapping.
pub fn sum_vec(a: &[i64]) -> (r: i64)
    ensures
        r == sum_elems(a@),
{
    let mut s: i64 = 0;
    let mut i: usize = 0;
    while i < a.len()
        invariant
            i <= a@.len(),
            s == sum_elems(a@.subrange(0, i as int)),
        decreases a@.len() - i,
    {
        proof {
            assert(a@.subrange(0, i + 1).drop_last() =~= a@.subrange(0, i as int));
        }
        s = s.wrapping_add(a[i]);
        i += 1;
    }
    proof {
        assert(a@.subrange(0, i as int) =~= a@);
    }
    s
}

/// `n` copies of `v`.
pub fn fill_vec(n: usize, v: i64) -> (r: Vec<i64>)
    ensures
        r@ == fill(n as nat, v),
{
    let mut out: Vec<i64> = Vec::new();
    let mut i: usize = 0;
    while i < n
        invariant
            i <= n,
            out@ == fill(i as nat, v),
        decreases n - i,
    {
        out.push(v);
        i += 1;
        proof {
            assert(out@ =~= fill(i as nat, v));
        }
    }
    out
}

/// A tensor of 64-bit integers in standard (row-major) layout.
pub struct Tensor {
    dim: Vec<usize>,
    data: Vec<i64>,
}

impl View for Tensor {
    type V = TensorModel;

    closed spec fn view(&self) -> TensorModel {
        TensorModel { shape: self.dim@, data: self.data@ }
    }
}

impl Clone for Tensor {
    fn clone(&self) -> (r: Self)
        ensures
            r@ == self@,
    {
        Tensor { dim: self.dim.clone(), data: self.data.clone() }
    }
}

impl Tensor {
    /// A tensor with dimensions `shape` over `data`, row-major.
    ///
    /// Fails with a shape error where `data` does not hold exactly as many
    /// elements as `shape` gives.
    pub fn from_vec(shape: Vec<usize>, data: Vec<i64>) -> (r: Result<Tensor, Error>)
        ensures
            match r {
                Ok(t) => t@ == (TensorModel { shape: shape@, data: data@ }) && t@.wf(),
                Err(e) => !(TensorModel { shape: shape@, data: data@ }).wf() && e == Error::Shape,
            },
    {
        match shape_size(&shape) {
            Some(n) => {
                if n != data.len() {
                    return Err(Error::Shape);
                }
            },
            None => {
                return Err(Error::Shape);
            },
        }
        Ok(Tensor { dim: shape, data })
    }

    /// A tensor with dimensions `shape`, every element `elem`.
    ///
    /// Fails with a device error where the element count is too large.
    pub fn from_elem(shape: Vec<usize>, elem: i64) -> (r: Result<Tensor, Error>)
        ensures
            match r {
                Ok(t) => shape_fits(shape@) && t@ == (TensorModel {
                    shape: shape@,
                    data: fill(product(shape@) as nat, elem),
                }) && t@.wf(),
                Err(e) => !shape_fits(shape@) && e == Error::Device(
                    DeviceError::AllocationTooLarge,
                ),
            },
    {
        match shape_size(&shape) {
            Some(n) => {
                let data = fill_vec(n, elem);
                Ok(Tensor { dim: shape, data })
            },
            None => Err(Error::Device(DeviceError::AllocationTooLarge)),
        }
    }

    /// A tensor with dimensions `shape`, every element zero.
    ///
    /// Fails with a device error where the element count is too large.
    pub fn zeros(shape: Vec<usize>) -> (r: Result<Tensor, Error>)
        ensures
            match r {
                Ok(t) => shape_fits(shape@) && t@ == (TensorModel {
                    shape: shape@,
                    data: fill(product(shape@) as nat, 0),
                }) && t@.wf(),
                Err(e) => !shape_fits(shape@) && e == Error::Device(
                    DeviceError::AllocationTooLarge,
                ),
            },
    {
        Tensor::from_elem(shape, 0)
    }

    /// The dimensions.
    pub fn shape(&self) -> (r: &[usize])
        ensures
            r@ == self@.shape,
    {
        self.dim.as_slice()
    }

    /// The elements in row-major order.
    pub fn as_slice(&self) -> (r: &[i64])
        ensures
            r@ == self@.data,
    {
        self.data.as_slice()
    }

    /// The number of elements.
    pub fn len(&self) -> (r: usize)
        ensures
            r == self@.data.len(),
    {
        self.data.len()
    }

    /// Whether the tensor has no elements.
    pub fn is_empty(&self) -> (r: bool)
        ensures
            r == (self@.data.len() == 0),
    {
        self.data.len() == 0
    }

    /// The elements in row-major order.
    pub fn into_vec(self) -> (r: Vec<i64>)
        ensures
            r@ == self@.data,
    {
        self.data
    }

    /// Adds the elements of `rhs` into those of `self`, wrapping.
    pub(crate) fn add_elems_in_place(&mut self, rhs: &Tensor)
        requires
            old(self)@.data.len() == rhs@.data.len(),
        ensures
            final(self)@ == (TensorModel {
                shape: old(self)@.shape,
                data: add_elems(old(self)@.data, rhs@.data),
            }),
    {
        let n = self.data.len();
        let mut i: usize = 0;
        while i < n
            invariant
                i <= n == self.data@.len() == rhs@.data.len() == old(self)@.data.len(),
                self.dim@ == old(self)@.shape,
                forall|j: int|
                    0 <= j < n ==> self.data@[j] == if j < i {
                        add_elems(old(self)@.data, rhs@.data)[j]
                    } else {
                        old(self)@.data[j]
                    },
            decreases n - i,
        {
            let x = self.data[i].wrapping_add(rhs.data[i]);
            self.data[i] = x;
            i += 1;
        }
        proof {
            assert(self.data@ =~= add_elems(old(self)@.data, rhs@.data));
        }
    }

    /// A tensor over `data` with dimensions `dim`, which give exactly as many elements.
    pub(crate) fn from_parts(dim: Vec<usize>, data: Vec<i64>) -> (r: Tensor)
        requires
            (TensorModel { shape: dim@, data: data@ }).wf(),
        ensures
            r@ == (TensorModel { shape: dim@, data: data@ }),
    {
        Tensor { dim, data }
    }

    /// The dimensions, by value.
    pub fn raw_dim(&self) -> (r: Vec<usize>)
        ensures
            r@ == self@.shape,
    {
        self.dim.clone()
    }
}

} // verus!
