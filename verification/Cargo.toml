[package]
name = "emmm_reconcile"
version = "0.1.0"
edition = "2021"
publish = false

[dependencies]
blake3 = { version = "1", default-features = false, features = ["pure", "std"] }
uuid = { version = "1", features = ["v4"] }
serde_json = "1"
walkdir = "2"
