[package]
name = "rust_http_server"
version = "0.1.0"
edition = "2021"
publish = false

[dependencies]
chrono = "0.4"
mime_guess = "2"
rustls = "0.23"
tokio = { version = "1", features = ["full"] }
tokio-rustls = "0.26"
