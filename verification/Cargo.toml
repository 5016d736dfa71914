[package]
name = "awebot"
version = "0.1.0"
edition = "2021"
publish = false

[dependencies]
chrono = "0.4"
clap = "2"
diesel = { version = "1", features = ["sqlite", "chrono"] }
diesel_migrations = "1"
egg-mode = "0.13"
env_logger = "0.5"
failure = "0.1"
irc = "0.13"
libloading = "0.8"
log = "0.4"
serde = "1"
serde_derive = "1"
tokio-core = "0.1"
tokio-timer = "0.1"
toml = "0.4"
