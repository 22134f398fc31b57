[package]
name = "kinode_pubsub"
version = "0.1.0"
edition = "2021"
publish = false

[dependencies]
anyhow = "1"
kinode_process_lib = { version = "=0.9.7", default-features = false }
serde = { version = "1", features = ["derive"] }
serde_json = "1"
sha2-const = "=0.1.3"
url = "=2.5.0"
