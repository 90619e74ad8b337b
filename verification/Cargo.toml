[package]
name = "mcp_client"
version = "0.1.0"
edition = "2021"
publish = false

[dependencies]
wasm-bindgen = "*"
js-sys = "*"
wasm-bindgen-futures = "*"
web-sys = { version = "*", default-features = false, features = ["Headers", "Response"] }

[dev-dependencies]
serde_json = "*"
