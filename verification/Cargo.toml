[package]
name = "passmgr-core"
version = "0.1.0"
edition = "2021"
publish = false

[dependencies]
chrono = { version = "0.4", default-features = false, features = ["std", "clock"] }
rusqlite = "*"
uuid = { version = "1", features = ["v4"] }
