[package]
name = "constrained_decoding"
version = "0.1.0"
edition = "2021"
publish = false

[dependencies]
candle-core = "=0.11.0"
candle-transformers = "=0.11.0"
rustc_apfloat = "*"
safetensors = "=0.8.0"
