//! Values in the shape that other languages are given them in.

pub mod node;
pub mod wasm;
