[package]
name = "hypesilico"
version = "0.1.0"
edition = "2021"
publish = false

[dependencies]
rust_decimal = "1"
sha2 = "0.10"
hex = "0.4"
chrono = "0.4"
lz4_flex = "0.11"
csv = "1"
serde = { version = "1", features = ["derive"] }
serde_json = "1"
thiserror = "1"
tokio = { version = "1", features = ["rt-multi-thread", "macros", "net", "sync", "time"] }
axum = "0.7"
reqwest = { version = "0.12", default-features = false, features = ["json", "rustls-tls"] }
sqlx = { version = "0.8", default-features = false, features = ["sqlite", "runtime-tokio"] }
tracing = "0.1"
tracing-subscriber = "0.3"
async-trait = "0.1"
backoff = { version = "0.4", features = ["tokio"] }
futures = "0.3"
