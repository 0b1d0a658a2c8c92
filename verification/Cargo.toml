[package]
name = "zk_pattern_matcher"
version = "0.1.0"
edition = "2021"
publish = false

[dependencies]
regex = "*"
fancy-regex = "*"
anyhow = "*"
dirs = "*"
serde = { version = "*", features = ["derive"] }
serde_json = "*"
serde_yaml = "*"
toml = "*"
