[package]
name = "rns_tools"
version = "0.1.0"
edition = "2021"
publish = false

[dependencies]
base64 = "=0.22.1"
bzip2 = "=0.6.1"
dirs = "=7.0.0"
ed25519-dalek = "=3.0.0"
env_logger = "=0.11.11"
hex = "=0.4.3"
hmac = "=0.12.1"
libc = "=0.2.191"
log = "=0.4.35"
nix = { version = "=0.31.3", features = ["term", "process", "signal", "ioctl", "poll", "fs"] }
rand = "=0.10.3"
reticulum-sdk = "=2.3.10"
rmpv = "=1.3.1"
serde = { version = "=1.0.229", features = ["derive"] }
serde_json = "=1.0.154"
sha2 = "=0.10.9"
tokio = { version = "=1.54.1", features = ["full"] }
toml = "=1.1.8"
