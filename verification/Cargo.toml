[package]
name = "arkama"
version = "0.1.0"
edition = "2021"
publish = false

[dependencies]
url = "2"
bytefmt = "0.1"
eyre = "0.6"
tokio = { version = "1", features = ["full"] }
reqwest = { version = "0.12", default-features = false, features = ["rustls-tls", "stream"] }
futures-util = "0.3"
serde = { version = "1", features = ["derive"] }
serde_json = "1"
clap = { version = "4", features = ["derive"] }
clap_complete = "4"
clap_complete_nushell = "4"
indicatif = "0.17"
owo-colors = "4"
rusqlite = { version = "0.32", features = ["bundled"] }
directories = "5"
comfy-table = "7"
tracing = "0.1"
tracing-subscriber = { version = "0.3", features = ["env-filter"] }
