[package]
name = "oplist_opds"
version = "0.1.0"
edition = "2021"
publish = false

[dependencies]
time = { version = "=0.3.55", features = ["formatting"] }
serde = { version = "=1.0.229", features = ["derive"] }
figment = { version = "=0.10.19", features = ["toml", "yaml", "json", "env"] }
snafu = "=0.9.2"
axum = "=0.8.9"
compio = { version = "=0.19.2", features = ["macros"] }
cyper = { version = "=0.9.0", features = ["json", "stream"] }
cyper-axum = "=0.9.0"
tracing = "=0.1.44"
tracing-subscriber = { version = "=0.3.23", features = ["env-filter"] }
