[package]
name = "decodeck"
version = "0.1.0"
edition = "2021"
publish = false

[dependencies]
anyhow = "1"
arboard = { version = "3", default-features = false }
ascii85 = "*"
base64 = "0.22"
clap = { version = "4", features = ["derive"] }
clap_complete = "4"
crossterm = "*"
data-encoding = "2"
infer = "*"
opener = "*"
percent-encoding = "2"
quick-xml = "0.37"
serde = { version = "1", features = ["derive"] }
serde_json = "1"
thiserror = "1"
tracing-subscriber = { version = "0.3", features = ["env-filter"] }
