[package]
name = "bpfquery"
version = "0.1.0"
edition = "2021"
publish = false

[dependencies]
serde_json = "*"
sqlparser = "*"
rusqlite = { version = "*", features = ["bundled"] }
tokio = { version = "*", features = ["full"] }
openssh = "*"
