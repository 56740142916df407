[package]
name = "efi_ir"
version = "0.1.0"
edition = "2021"
publish = false

[dependencies]
clang = { version = "=2.1.0", features = ["clang_3_7", "runtime"] }
