[package]
name = "callstack"
version = "0.1.0"
edition = "2021"
publish = false

[dependencies]
num-traits = "=0.2.19"
replace_with = "=0.1.8"
serde = { version = "1", features = ["derive"] }
wasmtime = { version = "=44.0.3", default-features = false, features = ["runtime", "cranelift"] }
