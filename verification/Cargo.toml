[package]
name = "pliron_mlir_interop"
version = "0.1.0"
edition = "2021"
publish = false

[dependencies]
pliron = "*"
pliron-llvm = "*"
thiserror = "*"
