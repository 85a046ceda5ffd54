[package]
name = "bannedcamp"
version = "0.1.0"
edition = "2021"
publish = false

[dependencies]
serde_json = "*"
url = "*"
chrono = "*"
reqwest = { version = "*", default-features = false, features = ["cookies", "rustls-tls", "stream"] }
tokio = { version = "*", features = ["rt-multi-thread", "macros", "time", "sync"] }
clap = { version = "*", features = ["derive"] }
clap_complete = "*"
indicatif = "*"
futures = "*"
zip = { version = "*", default-features = false, features = ["deflate"] }
