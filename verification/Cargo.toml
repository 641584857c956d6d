[package]
name = "tls_listener"
version = "0.1.0"
edition = "2021"
publish = false

[dependencies]
rustls-pemfile = "1"
tokio = { version = "1", features = ["net"] }
tokio-rustls = "0.24"

[dev-dependencies]
rcgen = "0.11"
