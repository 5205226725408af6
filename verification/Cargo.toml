[package]
name = "geo_harvest"
version = "0.1.0"
edition = "2021"
publish = false

[dependencies]
csv = "1"
serde_json = "1"
futures = "0.3"
reqwest = { version = "0.12", default-features = false, features = ["rustls-tls"] }
tokio = { version = "1", features = ["macros", "rt-multi-thread"] }
