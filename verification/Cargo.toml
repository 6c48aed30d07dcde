[package]
name = "dev_skills"
version = "0.1.0"
edition = "2021"
publish = false

[dependencies]
regex = "1"
sha2 = "0.10"
serde = { version = "1", features = ["derive"] }
serde_json = "1"
anyhow = "1"
walkdir = "2"
clap = { version = "4", features = ["derive"] }
clap_complete = "4"
chrono = { version = "0.4", features = ["serde"] }
time = { version = "0.3", features = ["formatting"] }
directories = "5"
toml = "0.8"
serde_yaml_ng = "*"
jsonc-parser = { version = "*", features = ["serde"] }

[dev-dependencies]
tempfile = "3"
