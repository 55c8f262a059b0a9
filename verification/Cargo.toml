[package]
name = "pop_launcher_plugins"
version = "0.1.0"
edition = "2021"
publish = false

[dependencies]
anyhow = "1"
async-trait = "0.1"
blocking = "1"
futures-lite = "*"
fuzzy-matcher = "0.3"
home = "*"
itertools = "*"
log = "0.4"
merge = "*"
mpris = "*"
notmuch = "*"
pop-launcher = "*"
ron = "*"
serde = { version = "1", features = ["derive"] }
serde_json = "1"
shlex = "1"
systemd = "*"
systemd-journal-logger = "*"
tokio = { version = "1", features = ["rt", "macros", "process"] }
toml = "*"
xdg = "*"
