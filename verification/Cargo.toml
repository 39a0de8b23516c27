[package]
name = "cloudgamesaver"
version = "0.1.5"
edition = "2021"
publish = false

[dependencies]
sha2 = "0.10"
hex = "0.4"
url = "2"
chrono = "0.4"
serde = { version = "1", features = ["derive"] }
serde_json = "1"
reqwest = { version = "0.12", default-features = false, features = ["json", "rustls-tls"] }
tokio = { version = "1", features = ["fs", "io-util", "rt-multi-thread", "macros"] }
futures = "0.3"
tiny_http = "0.12"
