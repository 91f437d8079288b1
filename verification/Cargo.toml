[package]
name = "diode"
version = "0.1.0"
edition = "2021"
publish = false

[dependencies]
raptorq = "*"
rand = "0.9"
rand_xorshift = "0.4"
core_affinity = "*"
crossbeam-channel = "*"
log = "*"
log4rs = "*"
metrics = "*"
metrics-exporter-prometheus = "*"
nix = { version = "*", features = ["socket", "net"] }
procfs = "*"
serde = { version = "*", features = ["derive"] }
toml = "*"
clap = { version = "*", features = ["derive"] }
inotify = "*"
regex = "*"
fasthash = "*"
