[package]
name = "mount_status_monitor"
version = "0.1.0"
edition = "2021"
publish = false

[dependencies]
argparse = "0.2"
error-chain = "0.12"
hostname = "0.1"
lazy_static = "1"
libc = "0.2"
prometheus = { version = "*", features = ["push"] }
rayon = "1"
syslog = "3"
wait-timeout = "0.1"
