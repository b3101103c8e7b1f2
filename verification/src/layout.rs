//! Shapes, row-major strides, and strided addressing.
//!
//! A tensor's metadata is a `shape` (dimension sizes) and `strides` of the
//! same length, in element-count units.  A flat offset is obtained by
//! multiplying each axis index with its stride and summing.  Buffers are
//! created with compact (row-major) strides, where the stride of an axis is
//! the product of all dimension sizes after it; the kernels, however, only
//! assume that every in-range index addresses inside the allocation, so they
//! tolerate arbitrary stride layouts.

use vstd::prelude::*;
use vstd::arithmetic::div_mod::{lemma_fundamental_div_mod, lemma_mod_division_less_than_divisor};
use vstd::arithmetic::mul::lemma_mul_nonnegative;

verus! {

/// Product of the dimension sizes from position `i` (inclusive) to the end.
pub open spec fn suffix_product(shape: Seq<usize>, i: int) -> int
    decreases shape.len() - i,
{
    if i < 0 || i >= shape.len() {
        1
    } else {
        shape[i] * suffix_product(shape, i + 1)
    }
}

/// Number of elements a buffer of this shape holds.
pub open spec fn element_count(shape: Seq<usize>) -> int {
    suffix_product(shape, 0)
}

/// Whether `strides` is the compact row-major layout of `shape`.
pub open spec fn is_compact(shape: Seq<usize>, strides: Seq<usize>) -> bool {
    &&& strides.len() == shape.len()
    &&& forall|i: int|
        0 <= i < shape.len() ==> #[trigger] strides[i] == suffix_product(shape, i + 1)
}

/// Whether every partial product of the shape's sizes is machine-representable.
pub open spec fn strides_fit(shape: Seq<usize>) -> bool {
    forall|i: int| 0 <= i <= shape.len() ==> #[trigger] suffix_product(shape, i) <= usize::MAX
}

proof fn lemma_suffix_product_nonneg(shape: Seq<usize>, i: int)
    ensures
        suffix_product(shape, i) >= 0,
    decreases shape.len() - i,
{
    if 0 <= i < shape.len() {
        lemma_suffix_product_nonneg(shape, i + 1);
        lemma_mul_nonnegative(shape[i] as int, suffix_product(shape, i + 1));
    }
}

/// Computes the compact strides of `shape` together with its element count,
/// or reports that some partial product exceeds the machine word.
pub fn compact_strides(shape: &[usize]) -> (r: Option<(Vec<usize>, usize)>)
    ensures
        r matches Some(p) ==> {
            &&& is_compact(shape@, p.0@)
            &&& p.1 == element_count(shape@)
            &&& strides_fit(shape@)
        },
        r is None ==> !strides_fit(shape@),
{
    let n: usize = shape.len();
    let mut strides: Vec<usize> = vec![0usize; n];
    let mut acc: usize = 1;
    let mut i: usize = n;
    while i > 0
        invariant
            i <= n,
            n == shape@.len(),
            strides@.len() == n,
            acc == suffix_product(shape@, i as int),
            forall|j: int| i <= j < n ==> #[trigger] strides@[j] == suffix_product(shape@, j + 1),
            forall|j: int| i <= j <= n ==> #[trigger] suffix_product(shape@, j) <= usize::MAX,
        decreases i,
    {
        i = i - 1;
        strides[i] = acc;
        match shape[i].checked_mul(acc) {
            Some(next) => {
                acc = next;
            },
            None => {
                assert(suffix_product(shape@, i as int) > usize::MAX);
                return None;
            },
        }
    }
    Some((strides, acc))
}

/// Computes the compact strides and element count of a shape all of whose
/// partial products are known to be machine-representable.
pub fn compact_strides_total(shape: &[usize]) -> (r: (Vec<usize>, usize))
    requires
        strides_fit(shape@),
    ensures
        is_compact(shape@, r.0@),
        r.1 == element_count(shape@),
{
    let n: usize = shape.len();
    let mut strides: Vec<usize> = vec![0usize; n];
    let mut acc: usize = 1;
    let mut i: usize = n;
    while i > 0
        invariant
            i <= n,
            n == shape@.len(),
            strides_fit(shape@),
            strides@.len() == n,
            acc == suffix_product(shape@, i as int),
            forall|j: int| i <= j < n ==> #[trigger] strides@[j] == suffix_product(shape@, j + 1),
        decreases i,
    {
        i = i - 1;
        strides[i] = acc;
        proof {
            lemma_suffix_product_nonneg(shape@, i + 1);
            assert(suffix_product(shape@, i as int) <= usize::MAX);
        }
        acc = shape[i] * acc;
    }
    (strides, acc)
}

/// Flat offset of the element at a four-axis index under the given strides.
pub open spec fn offset4(strides: Seq<usize>, n: int, c: int, h: int, w: int) -> int {
    n * strides[0] + c * strides[1] + h * strides[2] + w * strides[3]
}

/// Every in-range four-axis index addresses inside a buffer of `len` elements.
pub open spec fn view4_in_bounds(shape: Seq<usize>, strides: Seq<usize>, len: int) -> bool {
    &&& shape.len() == 4
    &&& strides.len() == 4
    &&& forall|n: int, c: int, h: int, w: int|
        0 <= n < shape[0] && 0 <= c < shape[1] && 0 <= h < shape[2] && 0 <= w < shape[3]
            ==> 0 <= #[trigger] offset4(strides, n, c, h, w) < len
}

/// One level of row-major packing: a partial index below `stride` stays below
/// the next dimension's span.
proof fn lemma_pack_level(i: int, size: int, stride: int, rest: int)
    by (nonlinear_arith)
    requires
        0 <= rest < stride,
        0 <= i < size,
    ensures
        0 <= i * stride + rest < size * stride,
{
}

/// Under compact strides, every in-range four-axis index lies inside the
/// buffer's `element_count` elements.
pub proof fn lemma_compact4_in_bounds(shape: Seq<usize>, strides: Seq<usize>, len: int)
    requires
        shape.len() == 4,
        is_compact(shape, strides),
        len == element_count(shape),
    ensures
        view4_in_bounds(shape, strides, len),
{
    assert forall|n: int, c: int, h: int, w: int|
        0 <= n < shape[0] && 0 <= c < shape[1] && 0 <= h < shape[2] && 0 <= w < shape[3]
            implies 0 <= #[trigger] offset4(strides, n, c, h, w) < len by {
        let s3 = strides[3] as int;
        let s2 = strides[2] as int;
        let s1 = strides[1] as int;
        let s0 = strides[0] as int;
        assert(s3 == 1);
        assert(s2 == shape[3] * 1);
        assert(s1 == shape[2] * s2);
        assert(s0 == shape[1] * s1);
        assert(len == shape[0] * s0);
        lemma_pack_level(h, shape[2] as int, s2, w * s3);
        lemma_pack_level(c, shape[1] as int, s1, h * s2 + w * s3);
        lemma_pack_level(n, shape[0] as int, s0, c * s1 + h * s2 + w * s3);
    }
}

/// The partial products of a rank-4 shape, written out.
pub proof fn lemma_rank4_products(shape: Seq<usize>)
    requires
        shape.len() == 4,
    ensures
        suffix_product(shape, 3) == shape[3],
        suffix_product(shape, 2) == shape[2] * shape[3],
        suffix_product(shape, 1) == shape[1] * (shape[2] * shape[3]),
        element_count(shape) == shape[0] * (shape[1] * (shape[2] * shape[3])),
{
    assert(suffix_product(shape, 4) == 1);
    assert(suffix_product(shape, 3) == shape[3] * 1);
    assert(suffix_product(shape, 2) == shape[2] * suffix_product(shape, 3));
    assert(suffix_product(shape, 1) == shape[1] * suffix_product(shape, 2));
    assert(suffix_product(shape, 0) == shape[0] * suffix_product(shape, 1));
}

/// A rank-3 shape whose partial products are machine-representable fits,
/// and its element count is the product of its sizes.
pub proof fn lemma_rank3_fit(n: usize, h: usize, w: usize)
    requires
        h * w <= usize::MAX,
        n * (h * w) <= usize::MAX,
    ensures
        strides_fit(seq![n, h, w]),
        element_count(seq![n, h, w]) == n * (h * w),
{
    let s = seq![n, h, w];
    assert(suffix_product(s, 3) == 1);
    assert(suffix_product(s, 2) == w * 1);
    assert(suffix_product(s, 1) == h * suffix_product(s, 2));
    assert(suffix_product(s, 0) == n * suffix_product(s, 1));
    assert forall|i: int| 0 <= i <= s.len() implies #[trigger] suffix_product(s, i)
        <= usize::MAX by {
        assert(i == 0 || i == 1 || i == 2 || i == 3);
    }
}

/// Batch coordinate of the worker with flat location index `idx`.
pub open spec fn loc_n(idx: int, hd: int, wd: int) -> int {
    idx / (hd * wd)
}

/// Row coordinate of the worker with flat location index `idx`.
pub open spec fn loc_h(idx: int, hd: int, wd: int) -> int {
    (idx % (hd * wd)) / wd
}

/// Column coordinate of the worker with flat location index `idx`.
pub open spec fn loc_w(idx: int, hd: int, wd: int) -> int {
    (idx % (hd * wd)) % wd
}

/// The three location coordinates of `idx` are in range and recompose to it.
pub proof fn lemma_loc_decompose(idx: int, nd: int, hd: int, wd: int)
    requires
        hd >= 1,
        wd >= 1,
        0 <= idx < nd * (hd * wd),
    ensures
        0 <= loc_n(idx, hd, wd) < nd,
        0 <= loc_h(idx, hd, wd) < hd,
        0 <= loc_w(idx, hd, wd) < wd,
        (loc_n(idx, hd, wd) * hd + loc_h(idx, hd, wd)) * wd + loc_w(idx, hd, wd) == idx,
{
    let hw = hd * wd;
    assert(hd * wd >= 1) by (nonlinear_arith)
        requires hd >= 1 && wd >= 1;
    let n = idx / hw;
    let rem = idx % hw;
    lemma_fundamental_div_mod(idx, hw);
    lemma_mod_division_less_than_divisor(idx, hw);
    assert(0 <= rem < hw);
    lemma_fundamental_div_mod(rem, wd);
    lemma_mod_division_less_than_divisor(rem, wd);
    assert(0 <= n) by (nonlinear_arith)
        requires idx >= 0 && hw >= 1 && idx == hw * n + rem && 0 <= rem < hw;
    assert(n < nd) by (nonlinear_arith)
        requires idx < nd * hw && hw >= 1 && idx == hw * n + rem && 0 <= rem < hw && n >= 0;
    assert(rem / wd < hd) by (nonlinear_arith)
        requires rem < hd * wd && wd >= 1 && rem == wd * (rem / wd) + rem % wd && 0 <= rem % wd < wd;
    assert(rem / wd >= 0) by (nonlinear_arith)
        requires rem >= 0 && wd >= 1 && rem == wd * (rem / wd) + rem % wd && 0 <= rem % wd < wd;
    assert((n * hd + rem / wd) * wd + rem % wd == idx) by (nonlinear_arith)
        requires idx == hw * n + rem && hw == hd * wd && rem == wd * (rem / wd) + rem % wd;
}

} // verus!
