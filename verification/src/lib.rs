//! Certifies that a thumbnail was sampled from a source image: one fixed
//! pixel per block, stated as a batched rank-1 constraint system.

pub mod assembler;
pub mod circuit;
pub mod config;
pub mod driver;
pub mod encoder;
pub mod error;
pub mod field;
pub mod guarantees;
pub mod pixels;
pub mod r1cs;
