//! Shape and stride arithmetic: element counts, row-major strides, layouts.

use vstd::prelude::*;

verus! {

/// The product of a sequence of dimension sizes (1 for no axes).
pub open spec fn product(s: Seq<usize>) -> int
    decreases s.len(),
{
    if s.len() == 0 {
        1
    } else {
        s[0] * product(s.subrange(1, s.len() as int))
    }
}

/// Whether some axis has length zero.
pub open spec fn has_zero(dims: Seq<usize>) -> bool {
    exists|i: int| 0 <= i < dims.len() && dims[i] == 0
}

/// The product of the dimension sizes after axis `i`.
pub open spec fn trailing_product(dims: Seq<usize>, i: int) -> int {
    product(dims.subrange(i + 1, dims.len() as int))
}

/// Row-major strides for `dims`: axis `i` steps over the product of the
/// later axes. As in the usual convention, an empty shape has all strides zero.
pub open spec fn default_strides(dims: Seq<usize>) -> Seq<isize> {
    Seq::new(
        dims.len(),
        |i: int|
            if has_zero(dims) {
                0isize
            } else {
                trailing_product(dims, i) as isize
            },
    )
}

/// A shape whose element count fits the machine's object size limit.
pub open spec fn shape_fits(dims: Seq<usize>) -> bool {
    product(dims) <= isize::MAX
}

/// Whether `strides` is the row-major layout of `dims`.
pub open spec fn is_standard_layout(dims: Seq<usize>, strides: Seq<isize>) -> bool {
    strides == default_strides(dims)
}

proof fn lemma_product_unfold(s: Seq<usize>, i: int)
    requires
        0 <= i < s.len(),
    ensures
        product(s.subrange(i, s.len() as int)) == s[i] * product(s.subrange(i + 1, s.len() as int)),
{
    let t = s.subrange(i, s.len() as int);
    assert(t.subrange(1, t.len() as int) =~= s.subrange(i + 1, s.len() as int));
}

pub proof fn lemma_product_nonneg(s: Seq<usize>)
    ensures
        product(s) >= 0,
    decreases s.len(),
{
    if s.len() > 0 {
        lemma_product_nonneg(s.subrange(1, s.len() as int));
        assert(s[0] * product(s.subrange(1, s.len() as int)) >= 0) by (nonlinear_arith)
            requires
                s[0] >= 0,
                product(s.subrange(1, s.len() as int)) >= 0,
        ;
    }
}

/// With no zero axis, every suffix product is positive and at most the whole product.
pub proof fn lemma_suffix_bounded(s: Seq<usize>, i: int)
    requires
        0 <= i <= s.len(),
        !has_zero(s),
    ensures
        1 <= product(s.subrange(i, s.len() as int)) <= product(s),
    decreases i,
{
    if i == 0 {
        assert(s.subrange(0, s.len() as int) =~= s);
        lemma_suffix_bounded_base(s, 0);
    } else {
        lemma_suffix_bounded(s, i - 1);
        lemma_product_unfold(s, i - 1);
        lemma_suffix_bounded_base(s, i);
        let a = s[i - 1] as int;
        let p = product(s.subrange(i, s.len() as int));
        assert(a >= 1);
        assert(p <= a * p) by (nonlinear_arith)
            requires
                a >= 1,
                p >= 1,
        ;
    }
}

proof fn lemma_suffix_bounded_base(s: Seq<usize>, i: int)
    requires
        0 <= i <= s.len(),
        !has_zero(s),
    ensures
        1 <= product(s.subrange(i, s.len() as int)),
    decreases s.len() - i,
{
    if i < s.len() {
        lemma_suffix_bounded_base(s, i + 1);
        lemma_product_unfold(s, i);
        let a = s[i] as int;
        let p = product(s.subrange(i + 1, s.len() as int));
        assert(a >= 1);
        assert(1 <= a * p) by (nonlinear_arith)
            requires
                a >= 1,
                p >= 1,
        ;
    } else {
        assert(s.subrange(i, s.len() as int).len() == 0);
    }
}

/// A shape with a zero axis has no elements.
pub proof fn lemma_zero_axis(s: Seq<usize>, i: int)
    requires
        0 <= i < s.len(),
        s[i] == 0,
    ensures
        product(s) == 0,
    decreases i,
{
    if i == 0 {
    } else {
        let t = s.subrange(1, s.len() as int);
        assert(t[i - 1] == 0);
        lemma_zero_axis(t, i - 1);
    }
}

/// Standard layout is row-major order: the last axis has stride one, and
/// each other axis steps over a whole run of the axis after it.
pub proof fn lemma_default_strides_row_major(dims: Seq<usize>)
    requires
        dims.len() > 0,
        !has_zero(dims),
        shape_fits(dims),
    ensures
        default_strides(dims)[dims.len() - 1] == 1,
        forall|i: int|
            0 <= i < dims.len() - 1 ==> #[trigger] default_strides(dims)[i] as int
                == default_strides(dims)[i + 1] as int * dims[i + 1],
{
    let n = dims.len() as int;
    assert(dims.subrange(n, n).len() == 0);
    assert forall|i: int| 0 <= i < n - 1 implies #[trigger] default_strides(dims)[i] as int
        == default_strides(dims)[i + 1] as int * dims[i + 1] by {
        lemma_product_unfold(dims, i + 1);
        lemma_suffix_bounded(dims, i + 1);
        lemma_suffix_bounded(dims, i + 2);
        let a = product(dims.subrange(i + 1, n));
        let b = product(dims.subrange(i + 2, n));
        let d = dims[i + 1] as int;
        assert(default_strides(dims)[i] == a as isize);
        assert(default_strides(dims)[i + 1] == b as isize);
        assert(a == d * b);
        assert(d * b == b * d) by (nonlinear_arith);
    }
}

/// The element count of a matrix.
pub proof fn lemma_product_2(m: usize, k: usize)
    ensures
        product(seq![m, k]) == m * k,
{
    let s = seq![m, k];
    let t = s.subrange(1, 2);
    assert(t =~= seq![k]);
    assert(t.subrange(1, 1) =~= Seq::<usize>::empty());
    assert(product(t.subrange(1, 1)) == 1);
    assert(product(t) == k * product(t.subrange(1, 1)));
    assert(product(s) == m * product(t));
    assert(m * (k * 1) == m * k) by (nonlinear_arith);
}

pub proof fn lemma_product_push(s: Seq<usize>, x: usize)
    ensures
        product(s.push(x)) == product(s) * x,
    decreases s.len(),
{
    let u = s.push(x);
    if s.len() > 0 {
        let t = s.subrange(1, s.len() as int);
        assert(u.subrange(1, u.len() as int) =~= t.push(x));
        lemma_product_push(t, x);
        assert(product(u) == u[0] * product(t.push(x)));
        assert(u[0] == s[0]);
        let a = s[0] as int;
        let p = product(t);
        assert(a * (p * x) == (a * p) * x) by (nonlinear_arith);
    } else {
        assert(u.subrange(1, 1) =~= Seq::<usize>::empty());
        assert(product(u) == u[0] * product(u.subrange(1, 1)));
        assert(s =~= Seq::<usize>::empty());
    }
}

/// Reversing the axes keeps the element count.
pub proof fn lemma_product_reverse(s: Seq<usize>)
    ensures
        product(s.reverse()) == product(s),
    decreases s.len(),
{
    if s.len() > 0 {
        let t = s.subrange(1, s.len() as int);
        assert(s.reverse() =~= t.reverse().push(s[0]));
        lemma_product_reverse(t);
        lemma_product_push(t.reverse(), s[0]);
        assert(product(t) * s[0] == s[0] * product(t)) by (nonlinear_arith);
    } else {
        assert(s.reverse() =~= s);
    }
}

/// Whether the layout is row-major, or row-major with the axes reversed (a
/// transpose): the layouts that tensors are made with and that reversing the
/// axes turns into each other.
pub open spec fn layout_ok(dims: Seq<usize>, strides: Seq<isize>) -> bool {
    is_standard_layout(dims, strides) || is_standard_layout(dims.reverse(), strides.reverse())
}

/// The multi-index of element `i` in row-major order over `dims`.
pub open spec fn unravel_row_major(i: int, dims: Seq<usize>) -> Seq<int> {
    Seq::new(dims.len(), |k: int| (i / trailing_product(dims, k)) % (dims[k] as int))
}

/// The sum of `idx[k] * strides[k]` over the first `m` axes.
pub open spec fn offset_prefix(idx: Seq<int>, strides: Seq<isize>, m: int) -> int
    decreases m,
{
    if m <= 0 {
        0
    } else {
        offset_prefix(idx, strides, m - 1) + idx[m - 1] * strides[m - 1]
    }
}

/// The position in memory, in elements, of the element at multi-index `idx`.
pub open spec fn offset_of(idx: Seq<int>, strides: Seq<isize>) -> int {
    offset_prefix(idx, strides, idx.len() as int)
}

/// In the reversed row-major layout, axis `k` steps over the product of the
/// axes before it.
pub proof fn lemma_reversed_layout_strides(dims: Seq<usize>, strides: Seq<isize>, k: int)
    requires
        dims.len() == strides.len(),
        0 <= k < dims.len(),
        !has_zero(dims),
        shape_fits(dims),
        is_standard_layout(dims.reverse(), strides.reverse()),
    ensures
        strides[k] as int == product(dims.subrange(0, k)),
        1 <= product(dims.subrange(0, k)) <= product(dims),
        product(dims.subrange(0, k + 1)) == product(dims.subrange(0, k)) * dims[k],
{
    let n = dims.len() as int;
    let rd = dims.reverse();
    lemma_product_reverse(dims);
    assert(!has_zero(rd)) by {
        if has_zero(rd) {
            let j = choose|j: int| 0 <= j < rd.len() && rd[j] == 0;
            assert(dims[n - 1 - j] == 0);
        }
    }
    assert(strides[k] == strides.reverse()[n - 1 - k]);
    assert(rd.subrange(n - k, n) =~= dims.subrange(0, k).reverse());
    lemma_product_reverse(dims.subrange(0, k));
    lemma_suffix_bounded(rd, n - k);
    assert(strides.reverse()[n - 1 - k] == trailing_product(rd, n - 1 - k) as isize);
    assert(dims.subrange(0, k + 1) =~= dims.subrange(0, k).push(dims[k]));
    lemma_product_push(dims.subrange(0, k), dims[k]);
}

/// The element count of `dims`, or `None` where it exceeds `isize::MAX`.
pub fn shape_size(dims: &Vec<usize>) -> (r: Option<usize>)
    ensures
        match r {
            Some(n) => shape_fits(dims@) && n == product(dims@),
            None => !shape_fits(dims@),
        },
{
    let n = dims.len();
    let mut k: usize = 0;
    while k < n
        invariant
            k <= n == dims@.len(),
            forall|j: int| 0 <= j < k ==> dims@[j] != 0,
        decreases n - k,
    {
        if dims[k] == 0 {
            proof {
                lemma_zero_axis(dims@, k as int);
            }
            return Some(0);
        }
        k += 1;
    }
    let mut acc: usize = 1;
    let mut i: usize = n;
    proof {
        assert(dims@.subrange(n as int, n as int).len() == 0);
    }
    while i > 0
        invariant
            i <= n == dims@.len(),
            !has_zero(dims@),
            acc == product(dims@.subrange(i as int, n as int)),
            acc <= isize::MAX,
        decreases i,
    {
        proof {
            lemma_product_unfold(dims@, i - 1);
            lemma_suffix_bounded(dims@, i - 1);
        }
        let d = dims[i - 1];
        if acc > (isize::MAX as usize) / d {
            proof {
                assert(d * acc > isize::MAX) by (nonlinear_arith)
                    requires
                        acc > (isize::MAX as usize) / d,
                        d > 0,
                ;
            }
            return None;
        }
        proof {
            assert(d * acc <= isize::MAX) by (nonlinear_arith)
                requires
                    acc <= (isize::MAX as usize) / d,
                    d > 0,
            ;
        }
        acc = d * acc;
        i -= 1;
    }
    proof {
        assert(dims@.subrange(0, n as int) =~= dims@);
    }
    Some(acc)
}

/// The row-major strides of `dims`.
pub fn default_strides_of(dims: &Vec<usize>) -> (r: Vec<isize>)
    requires
        shape_fits(dims@),
    ensures
        r@ == default_strides(dims@),
{
    let n = dims.len();
    let mut r: Vec<isize> = Vec::new();
    let mut k: usize = 0;
    let mut zero = false;
    while k < n
        invariant
            k <= n == dims@.len(),
            r@.len() == k,
            forall|j: int| 0 <= j < k ==> r@[j] == 0isize,
            zero <==> exists|j: int| 0 <= j < k && dims@[j] == 0,
        decreases n - k,
    {
        r.push(0);
        if dims[k] == 0 {
            zero = true;
        }
        k += 1;
    }
    if zero {
        proof {
            assert(r@ =~= default_strides(dims@));
        }
        return r;
    }
    let mut acc: usize = 1;
    let mut i: usize = n;
    proof {
        assert(dims@.subrange(n as int, n as int).len() == 0);
    }
    while i > 0
        invariant
            i <= n == dims@.len(),
            r@.len() == n,
            !has_zero(dims@),
            shape_fits(dims@),
            acc == product(dims@.subrange(i as int, n as int)),
            forall|j: int| i <= j < n ==> r@[j] == default_strides(dims@)[j],
        decreases i,
    {
        proof {
            lemma_suffix_bounded(dims@, i as int);
            lemma_suffix_bounded(dims@, i - 1);
            lemma_product_unfold(dims@, i - 1);
        }
        r[i - 1] = acc as isize;
        acc = dims[i - 1] * acc;
        i -= 1;
    }
    proof {
        assert(r@ =~= default_strides(dims@));
    }
    r
}

/// Whether `strides` is the row-major layout of `dims`.
pub fn standard_layout(dims: &Vec<usize>, strides: &Vec<isize>) -> (r: bool)
    requires
        shape_fits(dims@),
    ensures
        r == is_standard_layout(dims@, strides@),
{
    let d = default_strides_of(dims);
    if d.len() != strides.len() {
        return false;
    }
    let mut i: usize = 0;
    while i < d.len()
        invariant
            i <= d@.len() == strides@.len(),
            d@ == default_strides(dims@),
            forall|j: int| 0 <= j < i ==> d@[j] == strides@[j],
        decreases d@.len() - i,
    {
        if d[i] != strides[i] {
            return false;
        }
        i += 1;
    }
    proof {
        assert(d@ =~= strides@);
    }
    true
}

/// The axes of `v` in reverse order.
pub fn reversed<T: Copy>(v: &Vec<T>) -> (r: Vec<T>)
    ensures
        r@ == v@.reverse(),
{
    let mut r: Vec<T> = Vec::new();
    let mut i: usize = v.len();
    while i > 0
        invariant
            i <= v@.len(),
            r@.len() == v@.len() - i,
            forall|j: int| 0 <= j < r@.len() ==> r@[j] == v@[v@.len() - 1 - j],
        decreases i,
    {
        r.push(v[i - 1]);
        i -= 1;
    }
    proof {
        assert(r@ =~= v@.reverse());
    }
    r
}

} // verus!
