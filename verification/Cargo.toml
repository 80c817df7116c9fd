[package]
name = "postboard"
version = "0.1.0"
edition = "2021"
publish = false

[dependencies]
anyhow = "1"
bcrypt = "0.17"
bytes = "1"
futures-util = { version = "0.3", features = ["sink"] }
rmpv = "1"
serde = { version = "1", features = ["derive"] }
tokio = { version = "1", features = ["io-util", "macros", "net", "rt-multi-thread"] }
tokio-rustls = { version = "0.26", default-features = false, features = ["logging", "ring", "tls12"] }
tokio-util = { version = "0.7", features = ["codec"] }
toml = "0.9"
uuid = { version = "1", features = ["v7"] }
webpki-roots = "1"
