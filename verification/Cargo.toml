[package]
name = "shapshap"
version = "0.1.0"
edition = "2021"
publish = false

[dependencies]
anyhow = "1"
chrono = "0.4"
clap = { version = "4", features = ["derive"] }
dirs = "5"
git2 = { version = "0.19", default-features = false }
regex = "1"
serde = { version = "1", features = ["derive"] }
toml = "0.8"
