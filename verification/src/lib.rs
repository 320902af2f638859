//! Planning layer for GGUF-quantized inference.
//!
//! `fast_mmvq` sets up products of quantized matrices with a few activation rows, on scratch memory
//! that `workspace` keeps for each device. `config`, `loader`, `weights` and `model` read and lay
//! out a Mistral3 model, `attention` and `routing` make the decisions of its layers.

pub mod dtype;
pub mod scratch;
pub mod workspace;
pub mod launch;
pub mod fast_mmvq;
pub mod routing;
pub mod attention;
pub mod names;
pub mod config;
pub mod loader;
pub mod weights;
pub mod model;
