[package]
name = "xscope"
version = "0.1.0"
edition = "2021"
publish = false

[dependencies]
anyhow = "=1.0.104"
arc-swap = "=1.9.3"
async-trait = "=0.1.92"
axum = { version = "=0.8.9", default-features = false, features = ["http1", "json", "query", "tokio", "matched-path", "original-uri"] }
base64 = "=0.22.1"
bytes = "=1.12.1"
chrono = { version = "=0.4.45", default-features = false, features = ["clock"] }
getrandom = "=0.3.4"
http = "=1.5.0"
nix = { version = "=0.31.3", default-features = false, features = ["fs"] }
pingora-core = { version = "=0.8.1", default-features = false }
pingora-http = { version = "=0.8.1", default-features = false }
pingora-load-balancing = { version = "=0.8.1", default-features = false }
pingora-proxy = { version = "=0.8.1", default-features = false }
redis = { version = "=0.27.6", default-features = false, features = ["tokio-comp", "script"] }
reqwest = { version = "=0.12.28", default-features = false, features = ["json", "blocking"] }
sea-orm = { version = "=2.0.4", default-features = false, features = ["sqlx-postgres", "runtime-tokio", "with-json"] }
serde = { version = "=1.0.229", features = ["derive"] }
serde_json = { version = "=1.0.154", features = ["raw_value"] }
sha2 = "=0.10.9"
sse-core = "=0.2.3"
subtle = "=2.6.1"
tiktoken-rs = "=0.12.1"
tokio = { version = "=1.54.1", features = ["rt-multi-thread", "macros", "net", "time", "sync", "signal"] }
tower-http = { version = "=0.6.11", default-features = false, features = ["fs"] }
tracing = "=0.1.44"
uuid = { version = "=1.29.0", features = ["v7"] }
