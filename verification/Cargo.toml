[package]
name = "wasmplug"
version = "0.1.0"
edition = "2021"
publish = false

[dependencies]
wasmtime = "=39.0.2"
wasmtime-wasi = "=39.0.2"
tokio = { version = "=1.54.1", features = ["macros", "rt-multi-thread"] }
wit-bindgen = "=0.63.0"
