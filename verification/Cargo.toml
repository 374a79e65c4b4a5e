[package]
name = "immich_describer"
version = "0.1.0"
edition = "2021"
publish = false

[dependencies]
regex = "=1.13.1"
uuid = { version = "=1.29.0", features = ["serde"] }
serde = { version = "=1.0.229", features = ["derive"] }
tokio = { version = "=1.54.1", features = ["time", "rt", "macros"] }
tokio-postgres = "=0.7.18"
rust-i18n = "=3.1.5"
