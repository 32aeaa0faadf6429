[package]
name = "typecheck_rust"
version = "0.1.0"
edition = "2021"
publish = false

[dependencies]
indexmap = "2"
rustc-hash = "2"
