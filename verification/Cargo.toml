[package]
name = "arbitrage_bot"
version = "0.1.0"
edition = "2021"
publish = false

[dependencies]
rust_decimal = { version = "=1.43.0", features = ["serde"] }
arrayvec = "=0.7.8"
hmac = "=0.12.1"
sha2 = "=0.10.9"
hex = "=0.4.3"
serde = { version = "=1.0.229", features = ["derive"] }
serde_json = "=1.0.154"
tokio = { version = "=1.54.1", features = ["full"] }
futures = "=0.3.34"
tokio-tungstenite = "=0.21.0"
reqwest = { version = "=0.11.27", default-features = false, features = ["json", "rustls-tls"] }
chrono = "=0.4.45"
tracing = "=0.1.44"
tracing-subscriber = "=0.3.23"
async-trait = "=0.1.92"
thiserror = "=1.0.69"
metrics = "=0.22.4"
dashmap = "5"
crossbeam = "0.8"
