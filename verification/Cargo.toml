[package]
name = "loxone_rest_proxy"
version = "0.1.0"
edition = "2021"
publish = false

[dependencies]
axum = "=0.8.9"
axum-extra = { version = "=0.12.6", features = ["typed-header"] }
reqwest = { version = "=0.13.5", default-features = false }
serde = { version = "=1.0.229", features = ["derive"] }
tokio = { version = "=1.53.2", features = ["macros", "rt-multi-thread", "net"] }
tower-http = { version = "=0.7.1", features = ["trace"] }
tracing = "=0.1.44"
tracing-subscriber = { version = "=0.3.23", features = ["fmt"] }
