[package]
name = "benchboard"
version = "0.1.0"
edition = "2021"
publish = false

[dependencies]
anyhow = "=1.0.104"
askama = "=0.12.1"
axum = "=0.7.9"
axum-extra = "=0.9.6"
axum-sqlx-tx = "0.8"
clap = { version = "=4.6.7", features = ["derive"] }
futures-util = "=0.3.34"
itertools = "=0.12.1"
plotly = "=0.8.4"
serde = { version = "=1.0.229", features = ["derive"] }
serde_json = "=1.0.154"
sqlx = { version = "=0.7.4", features = ["runtime-tokio", "sqlite"] }
time = { version = "=0.3.55", features = ["formatting", "parsing", "macros", "serde"] }
tokio = { version = "=1.54.1", features = ["full"] }
tower-http = { version = "=0.5.2", features = ["auth", "validate-request"] }
tracing = "=0.1.44"
tracing-subscriber = "=0.3.23"
uuid = { version = "=1.29.0", features = ["v7", "serde"] }
