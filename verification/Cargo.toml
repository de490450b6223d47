[package]
name = "vex_core"
version = "0.1.0"
edition = "2021"
publish = false

[dependencies]
core_affinity = "*"
hashbrown = "*"
serde = { version = "1", features = ["derive"] }
serde_json = "1"
serde_yaml = "*"
toml = "*"
config = "*"
thiserror = "*"
