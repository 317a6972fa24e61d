[package]
name = "mender_rust"
version = "0.1.0"
edition = "2021"
publish = false

[dependencies]
clap = "2"
reqwest = { version = "0.11", default-features = false, features = ["blocking", "json", "rustls-tls-native-roots"] }
serde = { version = "1", features = ["derive"] }
serde_json = "1"
