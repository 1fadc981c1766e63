[package]
name = "osdd"
version = "0.1.0"
edition = "2021"
publish = false

[dependencies]
spsc-bip-buffer = "=0.2.1"
bincode = "=1.3.3"
serde = { version = "1", features = ["derive"] }
log = "0.4"
syslog = "=7.0.0"
statsd = "=0.16.1"
structopt = "=0.3.26"
toml = "=1.1.7"
error-chain = "=0.12.4"
kafka = { version = "=0.10.0", default-features = false, features = ["snappy", "gzip"] }
