[package]
name = "control"
version = "0.1.0"
edition = "2021"
publish = false

[dependencies]
color-eyre = "0.6"
dirs = "*"
log = "0.4"
serde = { version = "1", features = ["derive"] }
splines = "*"
thiserror = "*"
toml = "*"
