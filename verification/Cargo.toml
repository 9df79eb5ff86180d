[package]
name = "bast3st"
version = "0.1.0"
edition = "2021"
publish = false

[dependencies]
bitflags = { version = "2", features = ["serde"] }
log = "0.4"
regex = "1"
serde = { version = "1", features = ["derive"] }
serde_json = "1"
thiserror = "2"
tokio = { version = "1", features = ["rt-multi-thread", "macros"] }

[dev-dependencies]
serde_json = "1"
