//! The three decode kernels: sigmoid, classify, and box decode.
//!
//! The sigmoid pass writes, into fresh storage of the same extent as the
//! classification tensor, the sigmoid of every raw logit.  The sigmoid
//! itself — `1 / (1 + e^(-x))` on single-precision values — is a
//! floating-point map on bit patterns and is supplied by the caller; the
//! dispatch is verified to apply it to every slot, slot for slot.
//!
//! The classify pass reduces the activated `[N, C, H, W]` tensor along its
//! class axis: each worker owns one location `(n, h, w)`, walks the
//! channels through the tensor's actual strides, and keeps the first
//! channel of maximal value — a later channel replaces the running best
//! only on strict improvement, so the lowest-indexed channel wins ties.
//!
//! The box pass gathers, per location, the four regression values through
//! the regression tensor's strides, hands them with the location's grid
//! coordinates to the caller-supplied stride-and-clamp decode map, and
//! scatters the four results into channel-major output planes.

use vstd::prelude::*;
use vstd::arithmetic::mul::{
    lemma_mul_inequality, lemma_mul_is_distributive_add_other_way, lemma_mul_nonnegative,
};
use vstd::arithmetic::div_mod::{
    lemma_div_multiples_vanish, lemma_fundamental_div_mod, lemma_mod_division_less_than_divisor,
};
use crate::bits::{bits_gt, float_key, unit_interval_bits};
use crate::data::TensorArg;
use crate::launch::{compute_group_count, group_count, lemma_group_count_covers};
use crate::layout::{lemma_loc_decompose, loc_h, loc_n, loc_w, offset4, view4_in_bounds};

verus! {

/// What the sigmoid dispatch guarantees: the output holds, slot for slot, a
/// possible result of the activation map on the input slot.
pub open spec fn sigmoid_post<F: Fn(u32) -> u32>(op: F, input: Seq<u32>, out: Seq<u32>) -> bool {
    &&& out.len() == input.len()
    &&& forall|i: int| 0 <= i < input.len() ==> call_ensures(op, (input[i],), #[trigger] out[i])
}

/// The work of one worker of the elementwise dispatch: applies the
/// activation map to the one slot the worker owns.
pub fn sigmoid_at<F: Fn(u32) -> u32>(input: &TensorArg<'_, u32>, idx: usize, op: &F) -> (r: u32)
    requires
        idx < input.data@.len(),
        forall|x: u32| call_requires(*op, (x,)),
    ensures
        call_ensures(*op, (input.data@[idx as int],), r),
{
    (*op)(input.data[idx])
}

/// Dispatches the sigmoid kernel over every element of `input`, in groups
/// of `group` workers; workers whose index overshoots the element count do
/// nothing.  Fills `out`, which must already hold one slot per element.
pub fn sigmoid_launch<F: Fn(u32) -> u32>(
    input: TensorArg<'_, u32>,
    out: &mut Vec<u32>,
    group: usize,
    op: &F,
)
    requires
        group >= 1,
        old(out).len() == input.data@.len(),
        forall|x: u32| call_requires(*op, (x,)),
    ensures
        sigmoid_post(*op, input.data@, final(out)@),
{
    let total = out.len();
    let gc = compute_group_count(total, group);
    proof {
        lemma_group_count_covers(total as int, group as int);
    }
    let mut g: usize = 0;
    while g < gc
        invariant
            group >= 1,
            gc == group_count(total as int, group as int),
            gc * group >= total,
            total == input.data@.len(),
            out@.len() == total,
            g <= gc,
            forall|x: u32| call_requires(*op, (x,)),
            forall|i: int|
                0 <= i < total && i < g * group ==> call_ensures(
                    *op,
                    (input.data@[i],),
                    #[trigger] out@[i],
                ),
        decreases gc - g,
    {
        proof {
            lemma_mul_inequality(g as int, gc - 1, group as int);
            if total > 0 {
                lemma_group_count_covers(total as int, group as int);
            }
        }
        let base = g * group;
        let mut lane: usize = 0;
        while lane < group
            invariant
                group >= 1,
                total == input.data@.len(),
                out@.len() == total,
                base == g * group,
                base < total,
                lane <= group,
                forall|x: u32| call_requires(*op, (x,)),
                forall|i: int|
                    0 <= i < total && i < base + lane ==> call_ensures(
                        *op,
                        (input.data@[i],),
                        #[trigger] out@[i],
                    ),
            decreases group - lane,
        {
            if lane < total - base {
                let idx = base + lane;
                let v = sigmoid_at(&input, idx, op);
                out[idx] = v;
            }
            lane = lane + 1;
        }
        g = g + 1;
        proof {
            lemma_mul_is_distributive_add_other_way(group as int, g - 1, 1);
            assert(g * group == (g - 1) * group + group);
        }
    }
}

/// The value of class channel `c` at location `(n, h, w)` of a strided
/// `[N, C, H, W]` tensor.
pub open spec fn class_value(
    data: Seq<u32>,
    strides: Seq<usize>,
    n: int,
    h: int,
    w: int,
    c: int,
) -> u32 {
    data[offset4(strides, n, c, h, w)]
}

/// The channel the argmax reduction selects among the first `upto`
/// channels: the running best starts at channel 0 and a later channel
/// replaces it only when strictly greater.
pub open spec fn best_channel(
    data: Seq<u32>,
    strides: Seq<usize>,
    n: int,
    h: int,
    w: int,
    upto: int,
) -> int
    decreases upto,
{
    if upto <= 1 {
        0
    } else {
        let prev = best_channel(data, strides, n, h, w, upto - 1);
        if float_key(class_value(data, strides, n, h, w, upto - 1)) > float_key(
            class_value(data, strides, n, h, w, prev),
        ) {
            upto - 1
        } else {
            prev
        }
    }
}

/// The selected channel carries a maximal value, and ties are broken toward
/// the lowest index: every channel before the selected one is strictly
/// smaller, so equal-valued channels resolve to the first of them.
pub proof fn lemma_best_channel_least_argmax(
    data: Seq<u32>,
    strides: Seq<usize>,
    n: int,
    h: int,
    w: int,
    upto: int,
)
    requires
        upto >= 1,
    ensures
        0 <= best_channel(data, strides, n, h, w, upto) < upto,
        forall|c: int|
            0 <= c < upto ==> float_key(#[trigger] class_value(data, strides, n, h, w, c))
                <= float_key(
                class_value(data, strides, n, h, w, best_channel(data, strides, n, h, w, upto)),
            ),
        forall|c: int|
            0 <= c < best_channel(data, strides, n, h, w, upto) ==> float_key(
                #[trigger] class_value(data, strides, n, h, w, c),
            ) < float_key(
                class_value(data, strides, n, h, w, best_channel(data, strides, n, h, w, upto)),
            ),
    decreases upto,
{
    if upto > 1 {
        lemma_best_channel_least_argmax(data, strides, n, h, w, upto - 1);
    }
}

/// The work of one worker of the classify dispatch: at its location, the
/// maximal activated class value and the lowest channel that attains it.
#[verifier::loop_isolation(false)]
pub fn classify_at(cls: &TensorArg<'_, u32>, idx: usize) -> (r: (u32, u32))
    requires
        view4_in_bounds(cls.shape@, cls.strides@, cls.data@.len() as int),
        1 <= cls.shape@[1] <= u32::MAX,
        cls.shape@[2] >= 1,
        cls.shape@[3] >= 1,
        cls.shape@[2] * cls.shape@[3] <= usize::MAX,
        (idx as int) < cls.shape@[0] * (cls.shape@[2] * cls.shape@[3]),
    ensures
        ({
            let hd = cls.shape@[2] as int;
            let wd = cls.shape@[3] as int;
            let n = loc_n(idx as int, hd, wd);
            let h = loc_h(idx as int, hd, wd);
            let w = loc_w(idx as int, hd, wd);
            let sel = best_channel(cls.data@, cls.strides@, n, h, w, cls.shape@[1] as int);
            &&& r.1 as int == sel
            &&& r.1 < cls.shape@[1]
            &&& r.0 == class_value(cls.data@, cls.strides@, n, h, w, sel)
        }),
{
    let dlen = cls.data.len();
    proof {
        assert(cls.data@.len() == dlen);
    }
    let cd = cls.shape[1];
    let hd = cls.shape[2];
    let wd = cls.shape[3];
    let hw = hd * wd;
    proof {
        assert(hd as int * wd as int >= 1) by (nonlinear_arith)
            requires hd >= 1 && wd >= 1;
    }
    let n_i = idx / hw;
    let rem = idx % hw;
    let h_i = rem / wd;
    let w_i = rem % wd;
    proof {
        lemma_loc_decompose(idx as int, cls.shape@[0] as int, hd as int, wd as int);
    }
    let s0 = cls.strides[0];
    let s1 = cls.strides[1];
    let s2 = cls.strides[2];
    let s3 = cls.strides[3];
    proof {
        assert(0 <= offset4(cls.strides@, n_i as int, 0, h_i as int, w_i as int)
            < cls.data@.len());
        lemma_mul_nonnegative(n_i as int, s0 as int);
        lemma_mul_nonnegative(h_i as int, s2 as int);
        lemma_mul_nonnegative(w_i as int, s3 as int);
    }
    let base = n_i * s0 + h_i * s2 + w_i * s3;
    let mut best_c: usize = 0;
    let mut best_v: u32 = cls.data[base];
    let mut c: usize = 1;
    while c < cd
        invariant
            1 <= c <= cd,
            best_c < c,
            best_c as int == best_channel(
                cls.data@,
                cls.strides@,
                n_i as int,
                h_i as int,
                w_i as int,
                c as int,
            ),
            best_v == class_value(cls.data@, cls.strides@, n_i as int, h_i as int, w_i as int, best_c as int),
        decreases cd - c,
    {
        proof {
            assert(0 <= offset4(cls.strides@, n_i as int, c as int, h_i as int, w_i as int)
                < cls.data@.len());
            lemma_mul_nonnegative(c as int, s1 as int);
        }
        let off = base + c * s1;
        let v = cls.data[off];
        if bits_gt(v, best_v) {
            best_v = v;
            best_c = c;
        }
        c = c + 1;
    }
    (best_v, best_c as u32)
}

/// What one finished cell of the classify dispatch holds: the selected
/// channel in `index` and that channel's value in `score`.
pub open spec fn classify_cell_ok(
    sig: Seq<u32>,
    strides: Seq<usize>,
    hd: int,
    wd: int,
    cd: int,
    score: Seq<u32>,
    index: Seq<u32>,
    i: int,
) -> bool {
    let n = loc_n(i, hd, wd);
    let h = loc_h(i, hd, wd);
    let w = loc_w(i, hd, wd);
    let sel = best_channel(sig, strides, n, h, w, cd);
    &&& index[i] as int == sel
    &&& score[i] == class_value(sig, strides, n, h, w, sel)
}

/// What the classify dispatch guarantees: every location holds its argmax
/// channel and that channel's value, and every selected channel lies below
/// the class count.
pub open spec fn classify_post(
    sig: Seq<u32>,
    strides: Seq<usize>,
    shape: Seq<usize>,
    score: Seq<u32>,
    index: Seq<u32>,
) -> bool {
    let nhw = shape[0] * (shape[2] * shape[3]);
    &&& score.len() == nhw
    &&& index.len() == nhw
    &&& forall|i: int|
        0 <= i < nhw ==> #[trigger] classify_cell_ok(
            sig,
            strides,
            shape[2] as int,
            shape[3] as int,
            shape[1] as int,
            score,
            index,
            i,
        )
    &&& forall|i: int| 0 <= i < nhw ==> (#[trigger] index[i] as int) < shape[1]
}

/// Dispatches the classify kernel over the `N·H·W` locations in groups of
/// `group` workers; workers whose index overshoots the location count do
/// nothing.  Fills `score` and `index`, which must already hold one slot
/// per location.
#[verifier::loop_isolation(false)]
pub fn classify_launch(
    cls: TensorArg<'_, u32>,
    score: &mut Vec<u32>,
    index: &mut Vec<u32>,
    group: usize,
)
    requires
        group >= 1,
        view4_in_bounds(cls.shape@, cls.strides@, cls.data@.len() as int),
        1 <= cls.shape@[1] <= u32::MAX,
        cls.shape@[2] >= 1,
        cls.shape@[3] >= 1,
        cls.shape@[2] * cls.shape@[3] <= usize::MAX,
        old(score)@.len() == cls.shape@[0] * (cls.shape@[2] * cls.shape@[3]),
        old(index)@.len() == old(score)@.len(),
    ensures
        classify_post(cls.data@, cls.strides@, cls.shape@, final(score)@, final(index)@),
{
    let total = score.len();
    let gc = compute_group_count(total, group);
    proof {
        lemma_group_count_covers(total as int, group as int);
    }
    let mut g: usize = 0;
    while g < gc
        invariant
            g <= gc,
            score@.len() == total,
            index@.len() == total,
            forall|i: int|
                0 <= i < total && i < g * group ==> #[trigger] classify_cell_ok(
                    cls.data@,
                    cls.strides@,
                    cls.shape@[2] as int,
                    cls.shape@[3] as int,
                    cls.shape@[1] as int,
                    score@,
                    index@,
                    i,
                ),
            forall|i: int|
                0 <= i < total && i < g * group ==> (#[trigger] index@[i] as int) < cls.shape@[1],
        decreases gc - g,
    {
        proof {
            lemma_mul_inequality(g as int, gc - 1, group as int);
        }
        let base = g * group;
        let mut lane: usize = 0;
        while lane < group
            invariant
                score@.len() == total,
                index@.len() == total,
                base == g * group,
                base < total,
                lane <= group,
                forall|i: int|
                    0 <= i < total && i < base + lane ==> #[trigger] classify_cell_ok(
                        cls.data@,
                        cls.strides@,
                        cls.shape@[2] as int,
                        cls.shape@[3] as int,
                        cls.shape@[1] as int,
                        score@,
                        index@,
                        i,
                    ),
                forall|i: int|
                    0 <= i < total && i < base + lane ==> (#[trigger] index@[i] as int)
                        < cls.shape@[1],
            decreases group - lane,
        {
            if lane < total - base {
                let idx = base + lane;
                let r = classify_at(&cls, idx);
                let ghost score0 = score@;
                let ghost index0 = index@;
                score[idx] = r.0;
                index[idx] = r.1;
                proof {
                    assert forall|i: int| 0 <= i < total && i < base + lane + 1 implies
                        #[trigger] classify_cell_ok(
                            cls.data@,
                            cls.strides@,
                            cls.shape@[2] as int,
                            cls.shape@[3] as int,
                            cls.shape@[1] as int,
                            score@,
                            index@,
                            i,
                        ) by {
                        if i < base + lane {
                            assert(classify_cell_ok(
                                cls.data@,
                                cls.strides@,
                                cls.shape@[2] as int,
                                cls.shape@[3] as int,
                                cls.shape@[1] as int,
                                score0,
                                index0,
                                i,
                            ));
                        }
                    }
                    assert forall|i: int| 0 <= i < total && i < base + lane + 1 implies
                        (#[trigger] index@[i] as int) < cls.shape@[1] by {
                        if i < base + lane {
                            assert((index0[i] as int) < cls.shape@[1]);
                        }
                    }
                }
            }
            lane = lane + 1;
        }
        g = g + 1;
        proof {
            lemma_mul_is_distributive_add_other_way(group as int, g - 1, 1);
            assert(g * group == (g - 1) * group + group);
        }
    }
}

/// Every score is an element of the activated tensor: if every activated
/// value lies in the unit interval — the sigmoid's range — then every
/// score does too.
pub proof fn lemma_score_from_activated(
    sig: Seq<u32>,
    strides: Seq<usize>,
    shape: Seq<usize>,
    score: Seq<u32>,
    index: Seq<u32>,
)
    requires
        classify_post(sig, strides, shape, score, index),
        view4_in_bounds(shape, strides, sig.len() as int),
        shape[2] >= 1,
        shape[3] >= 1,
        forall|i: int| 0 <= i < sig.len() ==> unit_interval_bits(#[trigger] sig[i]),
    ensures
        forall|i: int| 0 <= i < score.len() ==> unit_interval_bits(#[trigger] score[i]),
{
    let hd = shape[2] as int;
    let wd = shape[3] as int;
    let nhw = shape[0] * (shape[2] * shape[3]);
    assert forall|i: int| 0 <= i < score.len() implies unit_interval_bits(
        #[trigger] score[i],
    ) by {
        assert(classify_cell_ok(sig, strides, hd, wd, shape[1] as int, score, index, i));
        lemma_loc_decompose(i, shape[0] as int, hd, wd);
        let n = loc_n(i, hd, wd);
        let h = loc_h(i, hd, wd);
        let w = loc_w(i, hd, wd);
        let sel = best_channel(sig, strides, n, h, w, shape[1] as int);
        assert(index[i] as int == sel);
        assert(0 <= sel < shape[1]);
        assert(0 <= offset4(strides, n, sel, h, w) < sig.len());
    }
}

/// Two classify dispatches over the same activated tensor agree slot for
/// slot: the reduction is deterministic, ties included.
pub proof fn lemma_classify_deterministic(
    sig: Seq<u32>,
    strides: Seq<usize>,
    shape: Seq<usize>,
    score1: Seq<u32>,
    index1: Seq<u32>,
    score2: Seq<u32>,
    index2: Seq<u32>,
)
    requires
        classify_post(sig, strides, shape, score1, index1),
        classify_post(sig, strides, shape, score2, index2),
    ensures
        score1 =~= score2,
        index1 =~= index2,
{
    let nhw = shape[0] * (shape[2] * shape[3]);
    assert forall|i: int| 0 <= i < nhw implies score1[i] == score2[i] && index1[i]
        == index2[i] by {
        assert(classify_cell_ok(
            sig,
            strides,
            shape[2] as int,
            shape[3] as int,
            shape[1] as int,
            score1,
            index1,
            i,
        ));
        assert(classify_cell_ok(
            sig,
            strides,
            shape[2] as int,
            shape[3] as int,
            shape[1] as int,
            score2,
            index2,
            i,
        ));
    }
}

/// The per-location inputs of the box-decode map: the location's grid
/// coordinates, the four regression values read at it, and the three decode
/// scalars the orchestrator was configured with.
#[derive(Clone, Copy, Debug, PartialEq, Eq, Structural)]
pub struct BboxArgs {
    /// Column of the location (grid x before the half-cell shift).
    pub col: usize,
    /// Row of the location (grid y before the half-cell shift).
    pub row: usize,
    /// Regression channel 0: center offset toward the left.
    pub cx: u32,
    /// Regression channel 1: center offset toward the top.
    pub cy: u32,
    /// Regression channel 2: half-extent toward the right.
    pub cw: u32,
    /// Regression channel 3: half-extent toward the bottom.
    pub ch: u32,
    /// The grid-cell size in pixels, as a bit pattern.
    pub stride: u32,
    /// The target image width in pixels.
    pub width: u32,
    /// The target image height in pixels.
    pub height: u32,
}

/// The four decoded, normalized box coordinates, as bit patterns.
#[derive(Clone, Copy, Debug, PartialEq, Eq, Structural)]
pub struct BboxOut {
    /// Left edge, normalized to the image width.
    pub xmin: u32,
    /// Top edge, normalized to the image height.
    pub ymin: u32,
    /// Right edge, normalized to the image width.
    pub xmax: u32,
    /// Bottom edge, normalized to the image height.
    pub ymax: u32,
}

/// Whether all four decoded coordinates lie in the unit interval.
pub open spec fn box_in_unit(r: BboxOut) -> bool {
    &&& unit_interval_bits(r.xmin)
    &&& unit_interval_bits(r.ymin)
    &&& unit_interval_bits(r.xmax)
    &&& unit_interval_bits(r.ymax)
}

/// The inputs the box-decode map is handed for location `i` of a strided
/// `[N, 4, H, W]` regression tensor.
pub open spec fn bbox_args_at(
    reg: Seq<u32>,
    strides: Seq<usize>,
    hd: int,
    wd: int,
    i: int,
    stride: u32,
    width: u32,
    height: u32,
) -> BboxArgs {
    let n = loc_n(i, hd, wd);
    let h = loc_h(i, hd, wd);
    let w = loc_w(i, hd, wd);
    BboxArgs {
        col: w as usize,
        row: h as usize,
        cx: reg[offset4(strides, n, 0, h, w)],
        cy: reg[offset4(strides, n, 1, h, w)],
        cw: reg[offset4(strides, n, 2, h, w)],
        ch: reg[offset4(strides, n, 3, h, w)],
        stride,
        width,
        height,
    }
}

/// What one finished cell of the box dispatch holds: the four planes carry,
/// at the cell's index, a possible result of the box-decode map on the
/// values gathered at that location.
pub open spec fn bbox_cell_ok<G: Fn(BboxArgs) -> BboxOut>(
    op: G,
    reg: Seq<u32>,
    strides: Seq<usize>,
    hd: int,
    wd: int,
    nhw: int,
    stride: u32,
    width: u32,
    height: u32,
    out: Seq<u32>,
    i: int,
) -> bool {
    call_ensures(
        op,
        (bbox_args_at(reg, strides, hd, wd, i, stride, width, height),),
        (BboxOut { xmin: out[i], ymin: out[nhw + i], xmax: out[2 * nhw + i], ymax: out[3 * nhw + i] }),
    )
}

/// What the box dispatch guarantees: the output is four channel-major
/// planes of `N·H·W` values each, and every location's four coordinates
/// are a possible result of the box-decode map on that location's inputs.
pub open spec fn bbox_post<G: Fn(BboxArgs) -> BboxOut>(
    op: G,
    reg: Seq<u32>,
    strides: Seq<usize>,
    shape: Seq<usize>,
    stride: u32,
    width: u32,
    height: u32,
    out: Seq<u32>,
) -> bool {
    let nhw = shape[0] * (shape[2] * shape[3]);
    &&& out.len() == 4 * nhw
    &&& forall|i: int|
        0 <= i < nhw ==> #[trigger] bbox_cell_ok(
            op,
            reg,
            strides,
            shape[2] as int,
            shape[3] as int,
            nhw,
            stride,
            width,
            height,
            out,
            i,
        )
}

/// If every box the decode map can return lies in the unit interval — the
/// stride-and-clamp formula guarantees that by its final clamp — then after
/// a box dispatch every element of the output tensor lies in it too: no
/// decoded coordinate is negative or greater than one.
pub proof fn lemma_bbox_output_unit_interval<G: Fn(BboxArgs) -> BboxOut>(
    op: G,
    reg: Seq<u32>,
    strides: Seq<usize>,
    shape: Seq<usize>,
    stride: u32,
    width: u32,
    height: u32,
    out: Seq<u32>,
)
    requires
        shape.len() == 4,
        bbox_post(op, reg, strides, shape, stride, width, height, out),
        forall|a: BboxArgs, r: BboxOut| #[trigger] call_ensures(op, (a,), r) ==> box_in_unit(r),
    ensures
        forall|j: int| 0 <= j < out.len() ==> unit_interval_bits(#[trigger] out[j]),
{
    let nhw = shape[0] * (shape[2] * shape[3]);
    assert forall|j: int| 0 <= j < out.len() implies unit_interval_bits(#[trigger] out[j]) by {
        let i = j % nhw;
        let k = j / nhw;
        lemma_fundamental_div_mod(j, nhw);
        lemma_mod_division_less_than_divisor(j, nhw);
        assert(0 <= k < 4) by (nonlinear_arith)
            requires j == nhw * k + i && 0 <= i < nhw && 0 <= j < 4 * nhw;
        assert(bbox_cell_ok(
            op,
            reg,
            strides,
            shape[2] as int,
            shape[3] as int,
            nhw,
            stride,
            width,
            height,
            out,
            i,
        ));
        let b = BboxOut {
            xmin: out[i],
            ymin: out[nhw + i],
            xmax: out[2 * nhw + i],
            ymax: out[3 * nhw + i],
        };
        assert(box_in_unit(b));
        if k == 0 {
            assert(j == i) by (nonlinear_arith)
                requires j == nhw * k + i && k == 0;
        } else if k == 1 {
            assert(j == nhw + i) by (nonlinear_arith)
                requires j == nhw * k + i && k == 1;
        } else if k == 2 {
            assert(j == 2 * nhw + i) by (nonlinear_arith)
                requires j == nhw * k + i && k == 2;
        } else {
            assert(j == 3 * nhw + i) by (nonlinear_arith)
                requires j == nhw * k + i && k == 3;
        }
    }
}

/// The work of one worker of the box dispatch: gathers the location's four
/// regression values through the tensor's strides and applies the decode
/// map to them.
#[verifier::loop_isolation(false)]
pub fn bbox_at<G: Fn(BboxArgs) -> BboxOut>(
    reg: &TensorArg<'_, u32>,
    idx: usize,
    stride: u32,
    width: u32,
    height: u32,
    op: &G,
) -> (r: BboxOut)
    requires
        view4_in_bounds(reg.shape@, reg.strides@, reg.data@.len() as int),
        reg.shape@[1] == 4,
        reg.shape@[2] >= 1,
        reg.shape@[3] >= 1,
        reg.shape@[2] * reg.shape@[3] <= usize::MAX,
        (idx as int) < reg.shape@[0] * (reg.shape@[2] * reg.shape@[3]),
        forall|a: BboxArgs| call_requires(*op, (a,)),
    ensures
        call_ensures(
            *op,
            (bbox_args_at(
                reg.data@,
                reg.strides@,
                reg.shape@[2] as int,
                reg.shape@[3] as int,
                idx as int,
                stride,
                width,
                height,
            ),),
            r,
        ),
{
    let dlen = reg.data.len();
    proof {
        assert(reg.data@.len() == dlen);
    }
    let hd = reg.shape[2];
    let wd = reg.shape[3];
    let hw = hd * wd;
    proof {
        assert(hd as int * wd as int >= 1) by (nonlinear_arith)
            requires hd >= 1 && wd >= 1;
    }
    let n_i = idx / hw;
    let rem = idx % hw;
    let h_i = rem / wd;
    let w_i = rem % wd;
    proof {
        lemma_loc_decompose(idx as int, reg.shape@[0] as int, hd as int, wd as int);
    }
    let s0 = reg.strides[0];
    let s1 = reg.strides[1];
    let s2 = reg.strides[2];
    let s3 = reg.strides[3];
    proof {
        assert(0 <= offset4(reg.strides@, n_i as int, 0, h_i as int, w_i as int)
            < reg.data@.len());
        assert(0 <= offset4(reg.strides@, n_i as int, 1, h_i as int, w_i as int)
            < reg.data@.len());
        assert(0 <= offset4(reg.strides@, n_i as int, 2, h_i as int, w_i as int)
            < reg.data@.len());
        assert(0 <= offset4(reg.strides@, n_i as int, 3, h_i as int, w_i as int)
            < reg.data@.len());
        lemma_mul_nonnegative(n_i as int, s0 as int);
        lemma_mul_nonnegative(h_i as int, s2 as int);
        lemma_mul_nonnegative(w_i as int, s3 as int);
    }
    let base = n_i * s0 + h_i * s2 + w_i * s3;
    let cx = reg.data[base];
    let cy = reg.data[base + s1];
    let cw = reg.data[base + 2 * s1];
    let ch = reg.data[base + 3 * s1];
    let args = BboxArgs { col: w_i, row: h_i, cx, cy, cw, ch, stride, width, height };
    proof {
        assert(args == bbox_args_at(
            reg.data@,
            reg.strides@,
            hd as int,
            wd as int,
            idx as int,
            stride,
            width,
            height,
        ));
    }
    (*op)(args)
}

/// Dispatches the box kernel over the `N·H·W` locations in groups of
/// `group` workers; overshooting workers do nothing.  Fills the four
/// channel-major planes of `out`, which must already hold `4·N·H·W` slots.
#[verifier::loop_isolation(false)]
pub fn bbox_launch<G: Fn(BboxArgs) -> BboxOut>(
    reg: TensorArg<'_, u32>,
    out: &mut Vec<u32>,
    group: usize,
    stride: u32,
    width: u32,
    height: u32,
    op: &G,
)
    requires
        group >= 1,
        view4_in_bounds(reg.shape@, reg.strides@, reg.data@.len() as int),
        reg.shape@[1] == 4,
        reg.shape@[2] >= 1,
        reg.shape@[3] >= 1,
        reg.shape@[2] * reg.shape@[3] <= usize::MAX,
        old(out)@.len() == 4 * (reg.shape@[0] * (reg.shape@[2] * reg.shape@[3])),
        forall|a: BboxArgs| call_requires(*op, (a,)),
    ensures
        bbox_post(*op, reg.data@, reg.strides@, reg.shape@, stride, width, height, final(out)@),
{
    let ghost spec_nhw = reg.shape@[0] * (reg.shape@[2] * reg.shape@[3]);
    let len = out.len();
    let nhw = len / 4;
    proof {
        lemma_div_multiples_vanish(spec_nhw, 4);
        assert(nhw == spec_nhw);
    }
    let gc = compute_group_count(nhw, group);
    proof {
        lemma_group_count_covers(nhw as int, group as int);
    }
    let mut g: usize = 0;
    while g < gc
        invariant
            g <= gc,
            out@.len() == len,
            forall|i: int|
                0 <= i < nhw && i < g * group ==> #[trigger] bbox_cell_ok(
                    *op,
                    reg.data@,
                    reg.strides@,
                    reg.shape@[2] as int,
                    reg.shape@[3] as int,
                    nhw as int,
                    stride,
                    width,
                    height,
                    out@,
                    i,
                ),
        decreases gc - g,
    {
        proof {
            lemma_mul_inequality(g as int, gc - 1, group as int);
        }
        let base = g * group;
        let mut lane: usize = 0;
        while lane < group
            invariant
                out@.len() == len,
                base == g * group,
                base < nhw,
                lane <= group,
                forall|i: int|
                    0 <= i < nhw && i < base + lane ==> #[trigger] bbox_cell_ok(
                        *op,
                        reg.data@,
                        reg.strides@,
                        reg.shape@[2] as int,
                        reg.shape@[3] as int,
                        nhw as int,
                        stride,
                        width,
                        height,
                        out@,
                        i,
                    ),
            decreases group - lane,
        {
            if lane < nhw - base {
                let idx = base + lane;
                let r = bbox_at(&reg, idx, stride, width, height, op);
                let ghost out0 = out@;
                out[idx] = r.xmin;
                out[nhw + idx] = r.ymin;
                out[2 * nhw + idx] = r.xmax;
                out[3 * nhw + idx] = r.ymax;
                proof {
                    assert(out@ =~= out0.update(idx as int, r.xmin).update(
                        nhw + idx,
                        r.ymin,
                    ).update(2 * nhw + idx, r.xmax).update(3 * nhw + idx, r.ymax));
                    assert forall|i: int| 0 <= i < nhw && i < base + lane + 1 implies
                        #[trigger] bbox_cell_ok(
                            *op,
                            reg.data@,
                            reg.strides@,
                            reg.shape@[2] as int,
                            reg.shape@[3] as int,
                            nhw as int,
                            stride,
                            width,
                            height,
                            out@,
                            i,
                        ) by {
                        if i < base + lane {
                            assert(bbox_cell_ok(
                                *op,
                                reg.data@,
                                reg.strides@,
                                reg.shape@[2] as int,
                                reg.shape@[3] as int,
                                nhw as int,
                                stride,
                                width,
                                height,
                                out0,
                                i,
                            ));
                            assert(out@[i] == out0[i]);
                            assert(out@[nhw + i] == out0[nhw + i]);
                            assert(out@[2 * nhw + i] == out0[2 * nhw + i]);
                            assert(out@[3 * nhw + i] == out0[3 * nhw + i]);
                        } else {
                            assert(out@[i] == r.xmin);
                            assert(out@[nhw + i] == r.ymin);
                            assert(out@[2 * nhw + i] == r.xmax);
                            assert(out@[3 * nhw + i] == r.ymax);
                        }
                    }
                }
            }
            lane = lane + 1;
        }
        g = g + 1;
        proof {
            lemma_mul_is_distributive_add_other_way(group as int, g - 1, 1);
            assert(g * group == (g - 1) * group + group);
        }
    }
}

} // verus!
