[package]
name = "mixed_pipeline"
version = "0.1.0"
edition = "2021"
publish = false

[dependencies]
tokio = { version = "1", features = ["sync", "rt", "rt-multi-thread", "macros"] }
tokio-stream = "0.1"
async-trait = "0.1"
serde = { version = "1", features = ["derive"] }
log = "0.4"
