[package]
name = "tmt_web"
version = "0.1.0"
edition = "2021"
publish = false

[dependencies]
jsonwebtoken = { version = "=11.1.0", features = ["rust_crypto"] }
serde_json = "=1.0.151"
axum = "*"
tokio = { version = "*", features = ["rt-multi-thread", "macros", "net"] }
serde = { version = "*", features = ["derive"] }
chrono = "*"
dotenvy = "*"
tower-http = { version = "*", features = ["cors"] }
