[package]
name = "artemis"
version = "0.1.0"
edition = "2021"
publish = false

[dependencies]
anyhow = "1"
async-trait = "0.1"
clap = { version = "4", default-features = false, features = ["std", "derive", "help", "usage"] }
dotenv = "0.15"
ethers = { version = "=2.0.14", default-features = false, features = ["ws"] }
opensea-stream = { version = "*", default-features = false }
thiserror = "1"
tokio = { version = "1", features = ["rt-multi-thread", "macros", "sync"] }
tokio-stream = "0.1"
tracing = "0.1"
tracing-subscriber = { version = "0.3", default-features = false, features = ["std", "fmt", "registry"] }

[dev-dependencies]
serde_json = "1"
