[package]
name = "watch_enrich"
version = "0.1.0"
edition = "2021"
publish = false

[dependencies]
tokio = { version = "*", features = ["full"] }
reqwest = { version = "*", default-features = false, features = ["json", "rustls-tls"] }
serde = { version = "*", features = ["derive"] }
serde_json = "*"
csv = "*"
clap = { version = "*", features = ["derive"] }
fantoccini = { version = "*", default-features = false, features = ["rustls-tls"] }
indicatif = "*"
tracing = "*"
tracing-subscriber = "*"
async-trait = "*"
thiserror = "*"
validator = { version = "*", features = ["derive"] }
config = "*"
