//! Core of a two-layer feed-forward network trainer.
//!
//! The library verifies everything about the trainer that does not itself
//! compute with real numbers: the closed error model, rectangular matrices
//! of opaque scalar codes, the network's shape state, the epoch schedule,
//! the evaluator's argmax scoring, and the text-level parsing that prepares
//! tabular data. The caller supplies scalar values as opaque 64-bit codes
//! (for example IEEE-754 bit patterns) and performs the floating-point
//! kernels itself.

pub mod encode;
pub mod error;
pub mod eval;
pub mod loader;
pub mod matrix;
pub mod network;
pub mod schedule;
