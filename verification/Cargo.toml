[package]
name = "yak_core"
version = "0.1.0"
edition = "2021"
publish = false

[dependencies]
tokio = { version = "1", default-features = false, features = ["sync", "rt", "rt-multi-thread", "time"] }
async-trait = "0.1"
thiserror = "1"
anyhow = "1"
rand = "0.8"
