//! MLIR translation for the builtin dialect.

pub mod attributes;
pub mod ops;
pub mod types;
