[package]
name = "finch"
version = "0.1.0"
edition = "2021"
publish = false

[dependencies]
murmurhash3 = "*"
serde = { version = "*", features = ["derive"] }
serde_json = "*"

[dev-dependencies]
needletail = { version = "*", default-features = false }
