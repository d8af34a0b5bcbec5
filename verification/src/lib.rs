//! Shapes, topology and dataset bookkeeping of a small fully connected
//! network for handwritten-digit classification.
//!
//! The numeric work on weights and pixels is floating point and lives in
//! the application crate; this library holds the integer logic it relies
//! on: matrix shapes and row-major indexing, the layer topology of a
//! network, and the assembly of the labelled image set.

pub mod activation;
pub mod shape;
pub mod topology;
pub mod mnist;
