//! MLIR translation for the LLVM dialect.

pub mod attributes;
pub mod ops;
pub mod types;
