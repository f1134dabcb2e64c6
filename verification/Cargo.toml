[package]
name = "suivm"
version = "0.1.0"
edition = "2021"
publish = false

[dependencies]
anyhow = "*"
clap = { version = "*", features = ["derive"] }
dirs = "*"
flate2 = "*"
futures-util = "*"
indicatif = "*"
reqwest = { version = "*", default-features = false, features = ["json", "stream"] }
serde = { version = "*", features = ["derive"] }
tar = "*"
tokio = { version = "*", features = ["fs", "io-util", "macros", "rt-multi-thread"] }
