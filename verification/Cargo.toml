[package]
name = "mient"
version = "0.1.0"
edition = "2021"
publish = false

[dependencies]
unicode-width = "=0.2.2"
matrix-sdk = { version = "=0.3.0", default-features = false, features = ["rustls-tls"] }
tokio = { version = "=1.53.2", features = ["full"] }
futures = "=0.3.34"
termion = "=1.5.6"
signal-hook = "=0.4.5"
signal-hook-tokio = { version = "=0.4.0", features = ["futures-v0_3"] }
async-trait = "=0.1.92"
url = "=2.5.8"
serde = { version = "=1.0.229", features = ["derive"] }
serde_json = "=1.0.151"
tui = { version = "=0.19.0", default-features = false, features = ["termion"] }
