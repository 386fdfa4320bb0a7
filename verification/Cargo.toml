[package]
name = "rust_lab"
version = "0.1.0"
edition = "2021"
publish = false

[dependencies]
byteorder = "1"
num = "0.2"
exonum-crypto = "*"
protobuf = "2"
futures = "0.1"
tokio = "0.1"
tokio-io = "0.1"
tokio-retry = "0.2"
failure = "0.1"
