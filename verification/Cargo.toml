[package]
name = "wombat"
version = "0.1.0"
edition = "2021"
publish = false

[dependencies]
anyhow = "1"
axum = "0.7"
bincode = "1"
clap = { version = "4", features = ["derive"] }
dashmap = "6"
dialoguer = "0.11"
diesel = { version = "2", features = ["sqlite", "r2d2"] }
diesel_migrations = "2"
directories = "5"
dotenvy = "0.15"
http-body-util = "0.1"
hyper = { version = "1", features = ["client", "server", "http1", "http2"] }
hyper-util = { version = "0.1", features = ["tokio", "client-legacy", "http1", "http2"] }
jsonpath_lib = "0.3"
mime = "0.3"
poise = "0.6"
rand = "0.8"
reqwest = { version = "0.12", features = ["json"] }
serde = { version = "1", features = ["derive"] }
serde_json = "1"
serenity = "0.12"
sha2 = "0.10"
tokio = { version = "1", features = ["full"] }
toml = "0.8"
tracing = "0.1"
tracing-subscriber = { version = "0.3", features = ["env-filter"] }
ulid = "1"
urlencoding = "2"
