[package]
name = "encs"
version = "5.0.0"
edition = "2021"
publish = false

[dependencies]
zstd = "0.13.0"
flate2 = "1.0.28"
lz4_flex = "0.11.1"
brotli = "3.4.0"
snap = "1.1.0"
blake3 = "1.5.0"
sha2 = "0.10.8"
crc32fast = "1.3.2"
infer = "0.15.0"
dashmap = "5.5.3"
serde = { version = "1.0.193", features = ["derive"] }
serde_json = "1.0.108"
toml = "0.8.8"
tokio = { version = "1.35.0", features = ["rt-multi-thread", "macros", "fs", "io-util", "sync"] }
parking_lot = "0.12.1"
indicatif = "0.17.7"
clap = { version = "4.4.11", features = ["derive"] }
dialoguer = "0.11.0"
thiserror = "1.0.50"
anyhow = "1.0.76"
color-eyre = "0.6.2"
log = "0.4.20"
env_logger = "0.10.1"
sysinfo = "0.29.11"
num_cpus = "1.16.0"
dirs = "5.0.1"

[dev-dependencies]
bincode = "1.3.3"
