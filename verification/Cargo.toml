[package]
name = "strobes"
version = "0.1.0"
edition = "2021"
publish = false

[dependencies]
anyhow = "1"
aws-credential-types = "1"
aws-sdk-ecr = "1"
base64 = "0.22"
chromiumoxide = { version = "*", default-features = false }
clap = { version = "4", features = ["derive"] }
crossterm = { version = "*", features = ["event-stream"] }
dirs = "*"
flate2 = "1"
futures-util = "0.3"
glob = "0.3"
pulldown-cmark = { version = "*", default-features = false }
ratatui = { version = "0.29", features = ["unstable-rendered-line-info"] }
reqwest = { version = "0.12", default-features = false, features = ["json", "rustls-tls"] }
serde = { version = "1", features = ["derive"] }
serde_json = "1"
sha2 = "0.10"
tar = "0.4"
tokio = { version = "1", features = ["full"] }
url = "2"
uuid = { version = "1", features = ["v4"] }
zip = { version = "2", default-features = false, features = ["deflate"] }
