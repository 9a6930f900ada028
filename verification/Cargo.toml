[package]
name = "tuwunel_admin"
version = "0.1.0"
edition = "2021"
publish = false

[dependencies]
urlencoding = "2"
pulldown-cmark = { version = "0.12", default-features = false, features = ["html"] }
anyhow = "1"
axum = { version = "0.7", features = ["macros"] }
clap = { version = "4", features = ["derive"] }
reqwest = { version = "0.12", default-features = false, features = ["json"] }
serde = { version = "1", features = ["derive"] }
serde_json = "1"
tera = { version = "1", default-features = false }
tokio = { version = "1", features = ["full"] }
toml = "0.8"
tower-http = { version = "0.5", features = ["fs", "trace"] }
tower-sessions = "0.13"
tracing = "0.1"
tracing-subscriber = { version = "0.3", features = ["env-filter"] }
uuid = { version = "1", features = ["v4"] }
