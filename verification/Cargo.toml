[package]
name = "clean_up"
version = "0.1.0"
edition = "2021"
publish = false

[dependencies]
regex = "1"
serde = { version = "1", features = ["derive"] }
tokio = { version = "1", features = ["process", "fs", "rt-multi-thread", "macros", "time"] }
