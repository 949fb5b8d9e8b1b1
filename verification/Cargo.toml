[package]
name = "memolanes_core"
version = "0.1.0"
edition = "2021"
publish = false

[dependencies]
anyhow = "1"
chrono = { version = "0.4", default-features = false, features = ["std"] }
protobuf = "3"
strum = "0.26"
strum_macros = "0.26"
