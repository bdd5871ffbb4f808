[package]
name = "stacking"
version = "0.1.0"
edition = "2021"
publish = false

[dependencies]
anyhow = "=1.0.104"
blake3 = { version = "=1.8.7", features = ["pure"] }
clap = { version = "=4.6.7", features = ["derive"] }
env_logger = "=0.10.2"
pausable_clock = "=1.0.2"
rand = { version = "=0.8.8", features = ["small_rng"] }
serde = { version = "=1.0.229", features = ["derive"] }
serde_json = "=1.0.154"
sled = "=0.34.7"
stdio-override = "=0.1.3"
wasm-mutate = "=0.2.48"
wasmparser = "=0.121.2"
wasmtime = { version = "=12.0.2", default-features = false, features = ["cranelift"] }
wasmtime-wasi = { version = "=12.0.2", default-features = false, features = ["sync"] }
