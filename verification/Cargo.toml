[package]
name = "propolis_server"
version = "0.1.0"
edition = "2021"
publish = false

[dependencies]
anyhow = "1"
base64 = "0.13"
bit_field = "0.10"
bitvec = "1"
bytes = "1"
const_format = "0.2"
erased-serde = "0.3"
futures = "0.3"
hyper = { version = "0.14", features = ["full"] }
image = "0.23"
num_enum = "0.5"
ron = "0.7"
serde = { version = "1", features = ["derive"] }
serde_derive = "1"
serde_json = "1"
slog = "2"
thiserror = "1"
tokio = { version = "1", features = ["full"] }
tokio-tungstenite = "0.16"
tokio-util = { version = "0.6", features = ["codec"] }
toml = "0.5"
uuid = { version = "1", features = ["serde", "v4"] }
