[package]
name = "release_notes"
version = "0.1.0"
edition = "2021"
publish = false

[dependencies]
serde_json = "*"
curl = "*"
tokio = { version = "*", features = ["rt-multi-thread", "macros"] }
clap = "*"
