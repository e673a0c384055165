[package]
name = "notecalc_web"
version = "0.1.0"
edition = "2021"
publish = false

[dependencies]
base64 = "0.13"
byteorder = "1"
flate2 = "1.0"
typed-arena = "2.0"
wasm-bindgen = "0.2"
