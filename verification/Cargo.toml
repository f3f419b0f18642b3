[package]
name = "uniffi_swift_helper"
version = "0.1.0"
edition = "2021"
publish = false

[dependencies]
anyhow = "1"
cargo_metadata = "0.18"
clap = { version = "4", features = ["derive"] }
pathdiff = "0.2"
rinja = "0.3"
serde_json = "1"
toml = "0.8"
uniffi_bindgen = "0.28"
