[package]
name = "ghr"
version = "0.2.0"
edition = "2021"
publish = false

[dependencies]
anyhow = "1"
bzip2 = "0.6"
chrono = { version = "0.4", features = ["serde"] }
clap = { version = "4", features = ["derive"] }
console = "0.15"
ctrlc = "3"
dialoguer = { version = "0.11", features = ["fuzzy-select"] }
dirs = "6"
flate2 = "1"
futures-util = "0.3"
glob = "0.3"
hex = "0.4"
indexmap = { version = "2", features = ["serde"] }
indicatif = "0.17"
liblzma = "0.4"
reqwest = { version = "0.12", default-features = false, features = ["json", "stream", "rustls-tls"] }
serde = { version = "1", features = ["derive"] }
serde_json = "1"
sha2 = "0.10"
tar = "0.4"
thiserror = "2"
tokio = { version = "1", features = ["full"] }
toml = "0.8"
toml_edit = "0.22"
tracing = "0.1"
walkdir = "2"
zip = { version = "2", default-features = false, features = ["deflate"] }
