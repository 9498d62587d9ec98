[package]
name = "mount_status_monitor"
version = "0.1.0"
edition = "2021"
publish = false

[dependencies]
argparse = "0.2"
error-chain = "0.12"
hostname = "*"
lazy_static = "1"
libc = "0.2"
log = "0.4"
prometheus = { version = "*", features = ["push"] }
rayon = "1"
syslog = "*"
wait-timeout = "0.2"
