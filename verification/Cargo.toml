[package]
name = "wcm_base_log_forwarder"
version = "0.1.0"
edition = "2021"
publish = false

[dependencies]
serde_json = "1"
anyhow = "1"
tokio = { version = "1", features = ["rt", "net", "io-util", "time"] }
wasmtime = "42"
wasmtime-wasi = "42"
wasmtime-wasi-http = "42"
wit-bindgen = { version = "0.37", default-features = false, features = ["macros", "realloc"] }
wasi = "0.14"
