[package]
name = "wasm_bindgen_cli_support"
version = "0.1.0"
edition = "2021"
publish = false

[dependencies]
walrus = "=0.28.0"
wasm-bindgen-shared = "=0.2.130"
wasmparser = "=0.245.1"
leb128 = "=0.2.7"
anyhow = "=1.0.104"
log = "=0.4.35"
serde = { version = "=1.0.229", features = ["derive"] }
serde_json = "=1.0.154"
toml = "=1.2.1"
clap = { version = "=4.6.7", features = ["derive"] }
tempfile = "=3.27.0"
home = "=0.5.12"
cargo_metadata = "*"

[dev-dependencies]
wat = "=1.263.0"
