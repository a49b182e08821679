[package]
name = "johnny"
version = "0.1.0"
edition = "2021"
publish = false

[dependencies]
anyhow = "=1.0.104"
bunt = "=0.2.9"
cfgloader = "=0.1.1"
clap = { version = "=4.6.7", features = ["derive"] }
dirs = "=7.0.0"
fs_extra = "=1.3.0"
futures = "=0.3.34"
menmos-client = "=0.1.1"
nix = { version = "=0.31.3", features = ["signal"] }
open = "=5.4.5"
serde = { version = "=1.0.229", features = ["derive"] }
serde_json = "=1.0.154"
