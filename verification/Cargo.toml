[package]
name = "kosh"
version = "0.1.0"
edition = "2021"
publish = false

[dependencies]
bincode-next = "*"
chrono = "*"
hex = "*"
bip39 = "*"
qrcodegen = "*"
base64 = "*"
serde = { version = "*", features = ["derive"] }
serde_json = "*"
tokio = { version = "*", features = ["full"] }
ratatui = "*"
crossterm = { version = "*", features = ["event-stream"] }
futures = "*"
knuffel = "*"
miette = "*"
thiserror = "*"
anyhow = "*"
axum = "*"
hyper = "*"
bytes = "*"
tokio-util = { version = "*", features = ["io"] }
uuid = { version = "*", features = ["v4"] }
sqlx = { version = "*", default-features = false, features = ["sqlite", "runtime-tokio"] }
local-ip-address = "*"
