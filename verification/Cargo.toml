[package]
name = "jalm"
version = "0.1.0"
edition = "2021"
publish = false

[dependencies]
rowan = "=0.17.0"
wasm-encoder = "=0.262.0"
serde = { version = "=1.0.229", features = ["derive"] }
serde_json = "=1.0.154"
clap = { version = "=4.6.7", features = ["derive"] }

[dev-dependencies]
wasmtime = { version = "=46.0.3", default-features = false, features = ["cranelift", "runtime"] }
