[package]
name = "tuxedo_control"
version = "0.1.0"
edition = "2021"
publish = false

[dependencies]
anyhow = "1"
log = "0.4"
env_logger = "0.11"
serde = { version = "1", features = ["derive"] }
serde_json = "1"
nix = { version = "0.29", features = ["ioctl"] }
libc = "0.2"
once_cell = "1"
tokio = { version = "1", features = ["full"] }
zbus = "4"
systemstat = "0.2"
