[package]
name = "rust_everywhere_notes"
version = "0.1.0"
edition = "2021"
publish = false

[dependencies]
validator = "=0.16.1"
pulldown-cmark = { version = "=0.9.6", default-features = false }
uuid = { version = "=1.29.0", features = ["serde"] }
cookie = "=0.17.0"
http = "=0.2.12"
serde = { version = "=1.0.229", features = ["derive"] }
serde_json = "=1.0.154"
axum = "=0.6.20"
tokio = { version = "=1.54.1", features = ["macros", "rt-multi-thread", "time"] }
tower-http = { version = "=0.4.4", features = ["cors"] }
tower-service = "=0.3.3"
http-body = "=0.4.6"
chrono = { version = "0.4", default-features = false, features = ["clock", "serde"] }
wasm-bindgen = { version = "=0.2.130", features = ["serde-serialize"] }
