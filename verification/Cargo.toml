[package]
name = "neoabzu"
version = "0.1.0"
edition = "2021"
publish = false

[dependencies]
metrics = "=0.21.1"
prost = "=0.12.6"
serde = { version = "=1.0.229", features = ["derive"] }
serde_json = "=1.0.154"
sled = "=0.34.7"
thiserror = "=1.0.69"
tokio = { version = "=1.54.1", features = ["macros", "rt-multi-thread"] }
tonic = "=0.10.2"
