[package]
name = "datakit"
version = "0.1.0"
edition = "2021"
publish = false

[dependencies]
handlebars = "=6.4.4"
jaq-core = "=1.5.1"
jaq-interpret = "=1.5.0"
jaq-parse = "=1.0.3"
jaq-std = "=1.6.0"
jaq-syn = "=1.6.0"
serde = { version = "=1.0.229", features = ["derive"] }
serde_json = "=1.0.151"
serde-json-wasm = "=1.0.1"
url = "=2.5.8"
proxy-wasm = "=0.2.5"
