[package]
name = "webservices"
version = "0.1.0"
edition = "2021"
publish = false

[dependencies]
regex = "1"
etag = "4"
chrono = "0.4"
axum = "0.6"
tokio = { version = "1", features = ["full"] }
tokio-util = { version = "0.7", features = ["codec", "io"] }
futures-util = "0.3"
serde = { version = "1", features = ["derive"] }
reqwest = { version = "0.11", default-features = false }
tonic = "0.10"
