[package]
name = "wasmedge_bindgen"
version = "0.1.0"
edition = "2021"
publish = false

[dependencies]
proc-macro2 = "=1.0.107"
quote = "=1.0.47"
syn = { version = "=1.0.109", features = ["full"] }
wasmedge-sys = "=0.19.4"
wasmedge-types = "=0.6.0"
