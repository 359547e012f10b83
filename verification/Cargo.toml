[package]
name = "memshark"
version = "0.1.0"
edition = "2021"
publish = false

[dependencies]
ethers = { version = "2", default-features = false, features = ["ws"] }
regex = "1"
clap = { version = "4", features = ["derive", "env"] }
tokio = { version = "1", features = ["macros", "rt-multi-thread"] }
dotenv = "0.15"
anyhow = "1"
serde_json = "1"
