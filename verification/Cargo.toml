[package]
name = "annil_server"
version = "0.1.0"
edition = "2021"
publish = false

[dependencies]
anni-flac = "=0.2.2"
anni-provider = "=0.3.1"
async-trait = "=0.1.92"
futures-util = "=0.3.34"
reqwest = { version = "=0.13.5", default-features = false, features = ["stream"] }
reqwest_dav = "=0.3.3"
serde = { version = "=1.0.229", features = ["derive"] }
serde_json = "=1.0.151"
tokio = { version = "=1.53.2", features = ["rt", "io-util", "macros"] }
tokio-util = { version = "=0.7.19", features = ["io"] }
