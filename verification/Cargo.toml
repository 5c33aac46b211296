[package]
name = "rnd"
version = "0.1.0"
edition = "2021"
publish = false

[dependencies]
serde = { version = "1", features = ["derive"] }
serde_json = "1"
toml = "0.8"
dirs = "5"
zbus = { version = "4", default-features = false, features = ["tokio"] }
tokio = { version = "1", features = ["rt", "macros", "sync"] }
async-channel = "2"
gtk4 = "0.9"
gtk4-layer-shell = "0.4"
reqwest = { version = "0.12", default-features = false, features = ["blocking"] }
tracing = "0.1"
tracing-subscriber = { version = "0.3", features = ["env-filter"] }
sd-notify = "0.4"
libc = "0.2"
clap = { version = "4", features = ["derive"] }
