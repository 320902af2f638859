[package]
name = "gguf_quant"
version = "0.1.0"
edition = "2021"
publish = false

[dependencies]
cudarc = { version = "0.16", default-features = false, features = ["std", "driver", "dynamic-loading", "f16", "cuda-12080"] }
half = "2"
tracing = "0.1"
