[package]
name = "avahi_aliases"
version = "0.1.0"
edition = "2021"
publish = false

[dependencies]
anyhow = "*"
dbus = "*"
env_logger = "*"
log = "*"
paw = "*"
structopt = "*"
sysinfo = "*"
syslog = "*"
time = { version = "*", features = ["formatting"] }
