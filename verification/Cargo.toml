[package]
name = "pond_cache"
version = "0.1.0"
edition = "2021"
publish = false

[dependencies]
bitcode = { version = "0.6", features = ["serde"] }
chrono = "0.4"
rusqlite = { version = "0.31", features = ["bundled"] }
serde = { version = "1", features = ["derive"] }

[dev-dependencies]
rand = "0.8"
uuid = { version = "1", features = ["v4", "serde"] }
