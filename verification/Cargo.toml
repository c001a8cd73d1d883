[package]
name = "gqlup"
version = "0.1.0"
edition = "2021"
publish = false

[dependencies]
semver = "1"
serde = { version = "1", features = ["derive"] }
serde_json = "1"
serde_yaml = "0.9"
humantime-serde = "1"
reqwest = { version = "0.12", default-features = false, features = ["blocking", "rustls-tls"] }
rustls = { version = "0.23", default-features = false, features = ["ring", "std", "logging", "tls12"] }
flate2 = "1"
tar = "0.4"
usage = "*"
