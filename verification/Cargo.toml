[package]
name = "ridgeline"
version = "0.6.0"
edition = "2021"
publish = false

[dependencies]
chrono = "0.4"
base64 = "0.22"
dirs = "6"
serde = { version = "1", features = ["derive"] }
serde_json = "1"
toml = "0.8"
reqwest = { version = "0.12", default-features = false, features = ["json", "rustls-tls"] }
tokio = { version = "1", features = ["full"] }
smol = "2"
async-compat = "0.2"
clap = { version = "4", features = ["derive"] }
iocraft = "*"
futures = "0.3"
anyhow = "1"
thiserror = "2"
open = "5"
async-trait = "0.1"
rmcp = { version = "*", features = ["server", "transport-io", "macros"] }
schemars = "*"
mac-notification-sys = "*"
winrt-notification = "*"
