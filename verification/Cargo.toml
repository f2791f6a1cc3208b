[package]
name = "gproxy"
version = "2.0.0"
edition = "2021"
publish = false

[dependencies]
anyhow = "1"
axum = { version = "0.8", features = ["ws"] }
bytes = "1"
clap = { version = "4", features = ["derive", "env"] }
futures-util = "0.3"
http = "1"
js-sys = "0.3"
serde_json = "1"
tower = { version = "0.5", features = ["limit", "load-shed", "util"] }
tracing = "0.1"
wasm-bindgen = "0.2"
wasm-bindgen-futures = "0.4"
wasm-streams = "0.4"
web-sys = { version = "0.3", features = ["Headers", "ReadableStream", "Request", "Response", "ResponseInit"] }
