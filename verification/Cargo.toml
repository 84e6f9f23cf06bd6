[package]
name = "shooter"
version = "0.1.0"
edition = "2021"
publish = false

[dependencies]
rand = "0.8"
pcg_rand = "*"
lazy_static = "1"
wasm-bindgen = "0.2"
