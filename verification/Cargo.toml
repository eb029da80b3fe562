[package]
name = "pir_wire"
version = "0.1.0"
edition = "2021"
publish = false

[dependencies]
chalamet_pir = "=0.6.0"
rand = "=0.9.1"
rand_chacha = "=0.9.0"
serde = { version = "=1.0.229", features = ["derive"] }
serde_json = "=1.0.151"
tokio = { version = "=1.53.2", features = ["net", "io-util", "io-std", "rt-multi-thread", "macros"] }
