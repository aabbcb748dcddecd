[package]
name = "swarm_test"
version = "0.1.0"
edition = "2021"
publish = false

[dependencies]
chrono = "*"
regex-lite = "*"
uuid = { version = "*", features = ["v4"] }
serde = { version = "*", features = ["derive"] }
serde_json = "*"
reqwest = { version = "*", default-features = false, features = ["json"] }
tokio = { version = "*", default-features = false, features = ["rt", "time"] }
libc = "*"
dirs = "*"
