[package]
name = "cosmic-monitor-positiond"
version = "0.1.0"
edition = "2021"
publish = false

[dependencies]
toml_edit = "0.22"
log = "0.4"
env_logger = "0.11"
clap = { version = "4", features = ["derive"] }
tokio = { version = "1", features = ["rt-multi-thread", "macros", "sync", "time", "signal"] }
tachyonix = "0.3"
calloop = "0.14"
calloop-wayland-source = "0.4"
wayland-client = "0.31"
wayland-protocols = { version = "0.32", features = ["client", "staging"] }
udev = "0.9"
