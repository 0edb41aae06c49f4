[package]
name = "ftx"
version = "0.1.0"
edition = "2021"
publish = false

[dependencies]
chrono = { version = "0.4", features = ["serde"] }
futures = "0.3"
hex = "0.4"
hmac-sha256 = "1"
rust_decimal = "1"
serde = { version = "1", features = ["derive"] }
serde_json = "1"
tokio = { version = "1", features = ["macros", "net", "time"] }
tokio-rustls = "0.22"
tokio-socks = "0.5"
tokio-tungstenite = { version = "0.14", features = ["rustls-tls"] }
webpki = "0.21"
webpki-roots = "0.21"
