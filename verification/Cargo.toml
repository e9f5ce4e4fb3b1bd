[package]
name = "unwasm_core"
version = "0.1.0"
edition = "2021"
publish = false

[dependencies]
wasmparser = "=0.249.0"
