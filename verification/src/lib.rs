//! Bookkeeping core of a CPU inference engine for MPT-style decoder-only
//! transformers: the binary model format, weight placement, session state,
//! forward-pass planning, token selection, and snapshots with their codec.
//!
//! Floating-point values never appear in this crate as numbers. They are held
//! by their IEEE 754 bit patterns (see [`ieee::F32Bits`]), which is all the
//! logic here needs: ordering and faithful transport.

pub mod arith;
pub mod bias;
pub mod bytes;
pub mod cache;
pub mod codec;
pub mod element;
pub mod entry;
pub mod error;
pub mod evaluator;
pub mod generation;
pub mod hparams;
pub mod ieee;
pub mod laws;
pub mod loader;
pub mod model;
pub mod params;
pub mod parts;
pub mod placement;
pub mod prompt;
pub mod reported;
pub mod sampler;
pub mod search;
pub mod session;
pub mod sizing;
pub mod snapshot;
pub mod stream;
pub mod tensor;
pub mod text;
pub mod token;
pub mod tokenizer;
pub mod topk;
pub mod vocab;
pub mod written;
