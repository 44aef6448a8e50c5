[package]
name = "geolite"
version = "0.1.0"
edition = "2021"
publish = false

[dependencies]
csv = "*"
reqwest = { version = "*", default-features = false }
rusqlite = { version = "*", features = ["bundled"] }
serde_json = "*"
tokio = { version = "*", features = ["macros", "rt-multi-thread", "sync"] }
zip = { version = "*", default-features = false, features = ["deflate"] }
