[package]
name = "grabit"
version = "1.0.0"
edition = "2021"
publish = false

[dependencies]
anyhow = "=1.0.104"
async-channel = "=2.5.0"
clap = { version = "=4.6.7", features = ["derive"] }
dirs = "=7.0.0"
env_logger = "=0.11.11"
futures = "=0.3.34"
htmd = "=0.5.6"
i18n-embed = { version = "=0.16.0", features = ["fluent-system", "desktop-requester"] }
log = "=0.4.35"
memfd = "=0.6.6"
regex = "=1.13.1"
shell-words = "=1.1.1"
tokio = { version = "=1.54.1", features = ["rt", "time", "macros"] }
toml = "=1.1.8"
toml_edit = "=0.25.17"
wayland-client = "=0.31.15"
wayland-protocols = { version = "=0.32.13", features = ["client", "staging"] }
wayland-protocols-misc = { version = "=0.3.12", features = ["client"] }
wayland-protocols-wlr = { version = "=0.3.12", features = ["client"] }
wl-clipboard-rs = "=0.9.5"
zbus = "=5.19.0"
