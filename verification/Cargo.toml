[package]
name = "yeechain"
version = "0.1.0"
edition = "2021"
publish = false

[dependencies]
log = "0.4"
futures = "0.1"
tokio = "0.1"
toml = "0.5"
serde = { version = "1", features = ["derive"] }
serde_derive = "1"
structopt = "0.2"
app_dirs = "1.2"
parking_lot = "0.9"
