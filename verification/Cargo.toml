[package]
name = "codec_bench"
version = "0.1.0"
edition = "2021"
publish = false

[dependencies]
bincode = "=0.6.1"
cbor = "=0.4.1"
rand = "=0.8.8"
rustc-serialize = "=0.3.25"
serde = "=0.8.23"
