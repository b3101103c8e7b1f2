//! Postprocessing of raw detection-network outputs.

pub mod detection;
