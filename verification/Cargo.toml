[package]
name = "turborepo"
version = "0.1.0"
edition = "2021"
publish = false

[dependencies]
anyhow = "1"
atty = "0.2"
chrono = { version = "0.4", features = ["serde"] }
console = "0.15"
derive_more = "0.99"
lazy_static = "1"
relative-path = "1"
reqwest = { version = "0.11", default-features = false, features = ["json"] }
rustc_version_runtime = "0.2"
serde = { version = "1", features = ["derive"] }
serde_json = "1"
serde_yaml = "0.9"
