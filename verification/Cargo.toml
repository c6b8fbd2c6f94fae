[package]
name = "summonerd"
version = "0.1.0"
edition = "2021"
publish = false

[dependencies]
anyhow = "1"
tokio = { version = "1", features = ["sync", "time", "rt-multi-thread", "macros"] }
