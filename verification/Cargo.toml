[package]
name = "launcher_core"
version = "0.1.0"
edition = "2021"
publish = false

[dependencies]
zip = { version = "*", default-features = false, features = ["deflate"] }
reqwest = { version = "*", default-features = false, features = ["stream"] }
futures-util = "*"
serde = { version = "*", features = ["derive"] }
serde_json = "*"
tokio = { version = "*", default-features = false, features = ["rt", "macros"] }
