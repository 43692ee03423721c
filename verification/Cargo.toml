[package]
name = "vnc"
version = "0.1.0"
edition = "2021"
publish = false

[dependencies]
aes = "0.8"
des = "0.8"
futures = "0.3"
md-5 = "0.10"
num-bigint = "0.4"
num-traits = "0.2"
rand = "0.8"
tokio = { version = "1", features = ["io-util", "macros", "rt", "sync"] }
tokio-stream = "0.1"
tokio-util = { version = "0.7", features = ["compat"] }
tracing = "0.1"
wasm-bindgen-futures = "0.4"
