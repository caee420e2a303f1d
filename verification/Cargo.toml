[package]
name = "openai_agents_rust"
version = "0.1.0"
edition = "2021"
publish = false

[dependencies]
async-trait = "0.1"
async-stream = "0.3"
axum = "0.7"
bytes = "1"
clap = { version = "4", features = ["derive"] }
config = { version = "0.14", default-features = false, features = ["yaml", "json"] }
dirs = "5"
dotenvy = "0.15"
futures-core = "0.3"
futures-util = "0.3"
libloading = "0.8"
reqwest = { version = "0.12", default-features = false, features = ["json", "multipart", "stream", "rustls-tls"] }
rust-yaml = "*"
serde = { version = "1", features = ["derive"] }
serde_json = "1"
thiserror = "1"
tokio = { version = "1", features = ["macros", "rt-multi-thread", "net", "sync"] }
tracing = "0.1"
tracing-subscriber = { version = "0.3", features = ["env-filter"] }
