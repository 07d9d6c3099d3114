[package]
name = "maker_desk"
version = "0.1.0"
edition = "2021"
publish = false

[dependencies]
rust_decimal = { version = "1", features = ["serde-with-str"] }
chrono = { version = "0.4", features = ["serde"] }
serde = { version = "1", features = ["derive"] }
serde_json = "1"
hmac = "0.12"
sha2 = "0.10"
hex = "0.4"
url = "2"
thiserror = "2"
tracing = "0.1"
futures-util = "0.3"
tokio = { version = "1", features = ["rt", "rt-multi-thread", "net", "sync", "time", "macros", "io-util"] }
tokio-tungstenite = { version = "*", features = ["connect"] }
reqwest = { version = "0.12", default-features = false }
