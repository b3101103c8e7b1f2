//! Decoding of the raw dense output of a single-stage object detector.
//!
//! The input of the decoder is a pair of tensors produced by the detection
//! network: per-location classification logits of shape `[N, C, H, W]` and
//! per-location box regression values of shape `[N, 4, H, W]`.  The decoder
//! turns them into, for every grid cell, the best post-sigmoid class score,
//! the index of that class, and a normalized axis-aligned bounding box.
//!
//! Scalar values are carried as the bit patterns of IEEE 754 single-precision
//! numbers (`u32`), so that every structural step — buffer layout, strided
//! addressing, worker dispatch, argmax selection, output placement — is
//! verified exactly.  The two genuinely floating-point maps (the sigmoid
//! activation and the stride-and-clamp box formula) are supplied by the
//! caller as closures over bit patterns; the contracts here pin down how and
//! where those closures are applied.

pub mod bits;
pub mod data;
pub mod kernel;
pub mod launch;
pub mod layout;
pub mod postprocess;

pub use data::DataBuffer;
pub use data::DataBufferError;
pub use postprocess::detection::PPResult;
pub use postprocess::detection::Yolo26;
pub use postprocess::detection::Yolo26Config;
pub use postprocess::detection::Yolo26Error;
