[package]
name = "halo"
version = "0.1.0"
edition = "2021"
publish = false

[dependencies]
anyhow = "1"
crossterm = "*"
dirs = "*"
git2 = { version = "*", default-features = false }
ratatui = "*"
serde = { version = "1", features = ["derive"] }
serde_json = "1"
shlex = "1"
tokio = { version = "1", features = ["full"] }
toml = "*"
users = "0.11"
zip = { version = "*", default-features = false, features = ["deflate"] }
