//! The decode orchestrator.
//!
//! `Yolo26` validates the input shapes, allocates the intermediate and
//! output buffers, and sequences the three kernels: sigmoid over the raw
//! logits, classify over the activated tensor, box decode over the raw
//! regression tensor.  Each run is stateless and self-contained; a failed
//! validation returns before anything is allocated.

use vstd::prelude::*;
use vstd::string::StringExecFns;
use crate::data::{DataBuffer, DataView, TensorArg};
use crate::kernel::{
    bbox_launch, bbox_post, box_in_unit, classify_launch, classify_post, sigmoid_launch,
    sigmoid_post, BboxArgs, BboxOut, lemma_bbox_output_unit_interval, lemma_score_from_activated,
};
use crate::bits::unit_interval_bits;
use crate::layout::{
    lemma_compact4_in_bounds, lemma_rank3_fit, lemma_rank4_products, suffix_product,
};

verus! {

/// Why a decode run failed.
#[derive(Debug)]
pub enum Yolo26Error {
    /// The input tensors do not form a decodable pair of shapes.
    InvalidInputShape(String),
    /// A kernel dispatch failed.  The host-simulated dispatch cannot fail;
    /// the variant mirrors the launch contract of a device backend.
    LaunchError(String),
}

/// Configuration of the decoder: the target image size the boxes are
/// normalized against, and the worker-group size of every dispatch.
pub struct Yolo26Config {
    width: u32,
    height: u32,
    dim: u32,
}

impl Yolo26Config {
    /// The configured target image width, in pixels.
    pub closed spec fn width_spec(&self) -> u32 {
        self.width
    }

    /// The configured target image height, in pixels.
    pub closed spec fn height_spec(&self) -> u32 {
        self.height
    }

    /// The configured worker-group size.
    pub closed spec fn dim_spec(&self) -> u32 {
        self.dim
    }

    /// Sets the target image size.
    pub fn with_shape(self, width: u32, height: u32) -> (r: Self)
        ensures
            r.width_spec() == width,
            r.height_spec() == height,
            r.dim_spec() == self.dim_spec(),
    {
        Yolo26Config { width, height, dim: self.dim }
    }

    /// Sets the worker-group size.
    pub fn with_dim(self, dim: u32) -> (r: Self)
        ensures
            r.width_spec() == self.width_spec(),
            r.height_spec() == self.height_spec(),
            r.dim_spec() == dim,
    {
        Yolo26Config { width: self.width, height: self.height, dim }
    }

    /// Finishes the configuration.
    pub fn build(self) -> (r: Result<Yolo26, Yolo26Error>)
        ensures
            r matches Ok(y) && y.width_spec() == self.width_spec() && y.height_spec()
                == self.height_spec() && y.dim_spec() == self.dim_spec(),
    {
        Ok(Yolo26 { width: self.width, height: self.height, dim: self.dim })
    }
}

impl Default for Yolo26Config {
    /// A 640 × 640 target image, one worker per group.
    fn default() -> (r: Self)
        ensures
            r.width_spec() == 640,
            r.height_spec() == 640,
            r.dim_spec() == 1,
    {
        Yolo26Config { width: 640, height: 640, dim: 1 }
    }
}

/// The decoder, as configured by `Yolo26Config`.
pub struct Yolo26 {
    width: u32,
    height: u32,
    dim: u32,
}

/// The result bundle of a decode run: the score tensor `[N, H, W]`, the
/// class-index tensor `[N, H, W]`, and the box tensor `[N, 4, H, W]`.
pub type PPResult = (DataBuffer<u32>, DataBuffer<u32>, DataBuffer<u32>);

/// The condition under which a decode run succeeds: the classification
/// tensor has rank 4 with no zero-sized dimension, its class count is
/// representable in the `u32` index tensor, and the regression tensor is
/// `[N, 4, H, W]` for the same batch size and grid.
pub open spec fn shapes_valid(cls: DataView<u32>, reg: DataView<u32>) -> bool {
    &&& cls.shape.len() == 4
    &&& 1 <= cls.shape[0]
    &&& 1 <= cls.shape[1] <= u32::MAX
    &&& 1 <= cls.shape[2]
    &&& 1 <= cls.shape[3]
    &&& reg.shape =~= seq![cls.shape[0], 4usize, cls.shape[2], cls.shape[3]]
}

/// What a successful decode run returns.  There is an activated tensor —
/// the sigmoid of every raw logit — whose argmax reduction fills `score`
/// and `index`; and the box tensor's four planes hold, location for
/// location, the decode map applied to the values gathered through the
/// regression tensor's strides.
pub open spec fn decode_ok<F: Fn(u32) -> u32, G: Fn(BboxArgs) -> BboxOut>(
    sigmoid_op: F,
    decode_op: G,
    cls: DataView<u32>,
    reg: DataView<u32>,
    stride: u32,
    width: u32,
    height: u32,
    score: DataBuffer<u32>,
    index: DataBuffer<u32>,
    bbox: DataBuffer<u32>,
) -> bool {
    &&& score.wf()
    &&& index.wf()
    &&& bbox.wf()
    &&& score@.shape =~= seq![cls.shape[0], cls.shape[2], cls.shape[3]]
    &&& index@.shape == score@.shape
    &&& bbox@.shape == reg.shape
    &&& exists|sig: Seq<u32>|
        {
            &&& #[trigger] sigmoid_post(sigmoid_op, cls.data, sig)
            &&& classify_post(sig, cls.strides, cls.shape, score@.data, index@.data)
        }
    &&& bbox_post(decode_op, reg.data, reg.strides, reg.shape, stride, width, height, bbox@.data)
}

impl Yolo26 {
    /// The target image width, in pixels.
    pub closed spec fn width_spec(&self) -> u32 {
        self.width
    }

    /// The target image height, in pixels.
    pub closed spec fn height_spec(&self) -> u32 {
        self.height
    }

    /// The worker-group size of every dispatch.
    pub closed spec fn dim_spec(&self) -> u32 {
        self.dim
    }

    /// Decodes one pair of detection tensors.
    ///
    /// `cls` holds the raw classification logits `[N, C, H, W]`; `reg` the
    /// raw regression values `[N, 4, H, W]`; `stride` is the grid-cell size
    /// in pixels, as a bit pattern.  `sigmoid_op` is the elementwise
    /// sigmoid on bit patterns, and `decode_op` the per-location
    /// stride-and-clamp box formula.  Returns the score, index and box
    /// tensors, or the shape error if and only if the inputs are not a
    /// decodable pair.
    pub fn execute<F: Fn(u32) -> u32, G: Fn(BboxArgs) -> BboxOut>(
        &self,
        cls: DataBuffer<u32>,
        reg: DataBuffer<u32>,
        stride: u32,
        sigmoid_op: &F,
        decode_op: &G,
    ) -> (r: Result<PPResult, Yolo26Error>)
        requires
            cls.wf(),
            reg.wf(),
            self.dim_spec() >= 1,
            forall|x: u32| call_requires(*sigmoid_op, (x,)),
            forall|a: BboxArgs| call_requires(*decode_op, (a,)),
        ensures
            (r is Ok) == shapes_valid(cls@, reg@),
            r matches Err(e) ==> e is InvalidInputShape,
            r matches Ok(out) ==> decode_ok(
                *sigmoid_op,
                *decode_op,
                cls@,
                reg@,
                stride,
                self.width_spec(),
                self.height_spec(),
                out.0,
                out.1,
                out.2,
            ),
            r matches Ok(out) ==> ((forall|a: BboxArgs, b: BboxOut|
                #[trigger] call_ensures(*decode_op, (a,), b) ==> box_in_unit(b))
                ==> forall|j: int|
                    0 <= j < out.2@.data.len() ==> unit_interval_bits(#[trigger] out.2@.data[j])),
            r matches Ok(out) ==> ((forall|x: u32, y: u32|
                #[trigger] call_ensures(*sigmoid_op, (x,), y) ==> unit_interval_bits(y))
                ==> forall|j: int|
                    0 <= j < out.0@.data.len() ==> unit_interval_bits(#[trigger] out.0@.data[j])),
    {
        // Validation happens first and fails fast: nothing is allocated
        // before every check has passed.
        let cls_shape = cls.shape();
        if cls_shape.len() != 4 {
            return Err(
                Yolo26Error::InvalidInputShape(
                    String::from_str("expected a [N, C, H, W] classification tensor"),
                ),
            );
        }
        let n = cls_shape[0];
        let c = cls_shape[1];
        let h = cls_shape[2];
        let w = cls_shape[3];
        if n == 0 || c == 0 || h == 0 || w == 0 {
            return Err(
                Yolo26Error::InvalidInputShape(
                    String::from_str("zero-sized dimension in the classification tensor"),
                ),
            );
        }
        if c > (u32::MAX as usize) {
            return Err(
                Yolo26Error::InvalidInputShape(
                    String::from_str("class count does not fit the index tensor"),
                ),
            );
        }
        let reg_shape = reg.shape();
        if !(reg_shape.len() == 4 && reg_shape[0] == n && reg_shape[1] == 4 && reg_shape[2] == h
            && reg_shape[3] == w) {
            return Err(
                Yolo26Error::InvalidInputShape(
                    String::from_str("expected a matching [N, 4, H, W] regression tensor"),
                ),
            );
        }
        proof {
            assert(reg@.shape =~= seq![n, 4usize, h, w]);
            assert(shapes_valid(cls@, reg@));
        }
        let group = self.dim as usize;

        // Stage 1: sigmoid over every raw logit, into fresh storage of the
        // classification tensor's extent.
        let cls_arg = cls.into_tensor_arg(1);
        let total = cls_arg.data.len();
        let mut sig_vec: Vec<u32> = vec![0u32; total];
        sigmoid_launch(cls_arg, &mut sig_vec, group, sigmoid_op);

        // Stage 2: argmax over the class axis of the activated tensor.
        proof {
            lemma_rank4_products(cls@.shape);
            lemma_compact4_in_bounds(cls@.shape, cls@.strides, total as int);
            assert(suffix_product(cls@.shape, 2) <= usize::MAX);
            assert((n * (h * w)) <= (n as int) * ((c as int) * ((h as int) * (w as int))))
                by (nonlinear_arith)
                requires n >= 0 && c >= 1 && h >= 0 && w >= 0;
        }
        let hw = h * w;
        let nhw = n * hw;
        let mut score_vec: Vec<u32> = vec![0u32; nhw];
        let mut index_vec: Vec<u32> = vec![0u32; nhw];
        let sig_arg = TensorArg {
            data: sig_vec.as_slice(),
            shape: cls.shape(),
            strides: cls.strides(),
            line_size: 1,
        };
        classify_launch(sig_arg, &mut score_vec, &mut index_vec, group);

        // Stage 3: box decode over the raw regression tensor.
        let reg_arg = reg.into_tensor_arg(1);
        let reg_len = reg_arg.data.len();
        proof {
            lemma_rank4_products(reg@.shape);
            lemma_compact4_in_bounds(reg@.shape, reg@.strides, reg_len as int);
            assert((n as int) * (4 * ((h as int) * (w as int))) == 4 * ((n as int) * ((h as int)
                * (w as int)))) by (nonlinear_arith);
        }
        let mut bbox_vec: Vec<u32> = vec![0u32; reg_len];
        bbox_launch(reg_arg, &mut bbox_vec, group, stride, self.width, self.height, decode_op);

        // Bundle the three outputs.
        let mut out_shape: Vec<usize> = Vec::new();
        out_shape.push(n);
        out_shape.push(h);
        out_shape.push(w);
        proof {
            assert(out_shape@ =~= seq![n, h, w]);
            lemma_rank3_fit(n, h, w);
        }
        let score_buf = DataBuffer::from_vec(score_vec, out_shape.as_slice());
        let index_buf = DataBuffer::from_vec(index_vec, out_shape.as_slice());
        let bbox_buf = DataBuffer::from_vec(bbox_vec, reg.shape());
        proof {
            if forall|a: BboxArgs, b: BboxOut|
                #[trigger] call_ensures(*decode_op, (a,), b) ==> box_in_unit(b) {
                lemma_bbox_output_unit_interval(
                    *decode_op,
                    reg@.data,
                    reg@.strides,
                    reg@.shape,
                    stride,
                    self.width,
                    self.height,
                    bbox_buf@.data,
                );
            }
            if forall|x: u32, y: u32|
                #[trigger] call_ensures(*sigmoid_op, (x,), y) ==> unit_interval_bits(y) {
                assert forall|i: int| 0 <= i < sig_vec@.len() implies unit_interval_bits(
                    #[trigger] sig_vec@[i],
                ) by {
                    assert(call_ensures(*sigmoid_op, (cls@.data[i],), sig_vec@[i]));
                }
                lemma_score_from_activated(
                    sig_vec@,
                    cls@.strides,
                    cls@.shape,
                    score_buf@.data,
                    index_buf@.data,
                );
            }
        }
        Ok((score_buf, index_buf, bbox_buf))
    }
}

} // verus!
